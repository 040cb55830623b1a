//! Naming conventions for enum variants, and their conversion from the
//! `PascalCase` in which variants are declared.

use vstd::prelude::*;

verus! {

/// The ways the case of a variant's name can be changed.
#[derive(Debug, Clone, Copy, PartialEq, Eq, Structural)]
pub enum RenameRule {
    /// Keep the declared name.
    NoRename,
    /// "lowercase" style.
    LowerCase,
    /// "UPPERCASE" style.
    UpperCase,
    /// "PascalCase" style, in which variants are declared.
    PascalCase,
    /// "camelCase" style.
    CamelCase,
    /// "snake_case" style.
    SnakeCase,
    /// "SCREAMING_SNAKE_CASE" style.
    ScreamingSnakeCase,
    /// "kebab-case" style.
    KebabCase,
    /// "SCREAMING-KEBAB-CASE" style.
    ScreamingKebabCase,
}

pub open spec fn is_ascii_upper(c: char) -> bool {
    'A' <= c && c <= 'Z'
}

pub open spec fn is_ascii_lower(c: char) -> bool {
    'a' <= c && c <= 'z'
}

pub open spec fn spec_ascii_lower(c: char) -> char {
    if is_ascii_upper(c) {
        ((c as u32) + 32) as char
    } else {
        c
    }
}

pub open spec fn spec_ascii_upper(c: char) -> char {
    if is_ascii_lower(c) {
        ((c as u32) - 32) as char
    } else {
        c
    }
}

fn ascii_lower(c: char) -> (r: char)
    ensures
        r == spec_ascii_lower(c),
{
    if 'A' <= c && c <= 'Z' {
        ((c as u8) + 32) as char
    } else {
        c
    }
}

fn ascii_upper(c: char) -> (r: char)
    ensures
        r == spec_ascii_upper(c),
{
    if 'a' <= c && c <= 'z' {
        ((c as u8) - 32) as char
    } else {
        c
    }
}

/// What `char::is_uppercase` says of a character outside ASCII: whether it
/// has the Unicode `Uppercase` property.
pub uninterp spec fn unicode_uppercase(c: char) -> bool;

/// Whether `c` counts as an uppercase letter when a word boundary is sought.
pub open spec fn is_upper(c: char) -> bool {
    if (c as u32) < 128 {
        is_ascii_upper(c)
    } else {
        unicode_uppercase(c)
    }
}

/// Relies on `char::is_uppercase`: true of a character with the Unicode
/// `Uppercase` property, which in ASCII are exactly `'A'..='Z'`.
#[verifier::external_body]
fn is_uppercase(c: char) -> (r: bool)
    ensures
        r == (if (c as u32) < 128 {
            'A' <= c && c <= 'Z'
        } else {
            unicode_uppercase(c)
        }),
{
    c.is_uppercase()
}

/// Relies on `String::push`: appends one character.
#[verifier::external_body]
pub(crate) fn push_char(s: &mut String, c: char)
    ensures
        final(s)@ == old(s)@.push(c),
{
    s.push(c)
}

/// `s` with an `_` put before every uppercase character but the first, and
/// every ASCII letter in lowercase.
pub open spec fn snake_case(s: Seq<char>) -> Seq<char>
    decreases s.len(),
{
    if s.len() == 0 {
        seq![]
    } else {
        let c = s.last();
        let before = snake_case(s.drop_last());
        if s.len() > 1 && is_upper(c) {
            before + seq!['_', spec_ascii_lower(c)]
        } else {
            before.push(spec_ascii_lower(c))
        }
    }
}

pub open spec fn lowercase(s: Seq<char>) -> Seq<char> {
    s.map_values(|c: char| spec_ascii_lower(c))
}

pub open spec fn uppercase(s: Seq<char>) -> Seq<char> {
    s.map_values(|c: char| spec_ascii_upper(c))
}

pub open spec fn camel_case(s: Seq<char>) -> Seq<char> {
    s.update(0, spec_ascii_lower(s[0]))
}

/// `s` with every `_` replaced by `-`.
pub open spec fn underscores_to_dashes(s: Seq<char>) -> Seq<char> {
    s.map_values(|c: char| if c == '_' { '-' } else { c })
}

/// The name that `rule` gives to a variant declared as `name`.
pub open spec fn apply_rule(rule: RenameRule, name: Seq<char>) -> Seq<char> {
    match rule {
        RenameRule::NoRename | RenameRule::PascalCase => name,
        RenameRule::LowerCase => lowercase(name),
        RenameRule::UpperCase => uppercase(name),
        RenameRule::CamelCase => camel_case(name),
        RenameRule::SnakeCase => snake_case(name),
        RenameRule::ScreamingSnakeCase => uppercase(snake_case(name)),
        RenameRule::KebabCase => underscores_to_dashes(snake_case(name)),
        RenameRule::ScreamingKebabCase => underscores_to_dashes(uppercase(snake_case(name))),
    }
}

/// A variant name the conversions accept: one that is not empty.
pub open spec fn is_variant_name(name: Seq<char>) -> bool {
    name.len() > 0
}

pub(crate) fn make_ascii_lowercase(s: &str) -> (r: String)
    ensures
        r@ == lowercase(s@),
{
    let n = s.unicode_len();
    let mut r = String::new();
    let mut i: usize = 0;
    while i < n
        invariant
            n == s@.len(),
            i <= n,
            r@ == lowercase(s@.subrange(0, i as int)),
        decreases n - i,
    {
        let c = s.get_char(i);
        push_char(&mut r, ascii_lower(c));
        i = i + 1;
        assert(lowercase(s@.subrange(0, i as int)) =~= lowercase(s@.subrange(0, i - 1)).push(
            spec_ascii_lower(c),
        ));
    }
    assert(s@.subrange(0, n as int) =~= s@);
    r
}

fn make_ascii_uppercase(s: &str) -> (r: String)
    ensures
        r@ == uppercase(s@),
{
    let n = s.unicode_len();
    let mut r = String::new();
    let mut i: usize = 0;
    while i < n
        invariant
            n == s@.len(),
            i <= n,
            r@ == uppercase(s@.subrange(0, i as int)),
        decreases n - i,
    {
        let c = s.get_char(i);
        push_char(&mut r, ascii_upper(c));
        i = i + 1;
        assert(uppercase(s@.subrange(0, i as int)) =~= uppercase(s@.subrange(0, i - 1)).push(
            spec_ascii_upper(c),
        ));
    }
    assert(s@.subrange(0, n as int) =~= s@);
    r
}

fn make_camel_case(s: &str) -> (r: String)
    requires
        s@.len() > 0,
    ensures
        r@ == camel_case(s@),
{
    let n = s.unicode_len();
    let mut r = String::new();
    push_char(&mut r, ascii_lower(s.get_char(0)));
    let mut i: usize = 1;
    while i < n
        invariant
            n == s@.len(),
            1 <= i <= n,
            r@ == camel_case(s@).subrange(0, i as int),
        decreases n - i,
    {
        let c = s.get_char(i);
        push_char(&mut r, c);
        i = i + 1;
        assert(camel_case(s@).subrange(0, i as int) =~= camel_case(s@).subrange(0, i - 1).push(c));
    }
    assert(camel_case(s@).subrange(0, n as int) =~= camel_case(s@));
    r
}

fn make_snake_case(s: &str) -> (r: String)
    ensures
        r@ == snake_case(s@),
{
    let n = s.unicode_len();
    let mut r = String::new();
    let mut i: usize = 0;
    while i < n
        invariant
            n == s@.len(),
            i <= n,
            r@ == snake_case(s@.subrange(0, i as int)),
        decreases n - i,
    {
        let c = s.get_char(i);
        if i > 0 && is_uppercase(c) {
            push_char(&mut r, '_');
        }
        push_char(&mut r, ascii_lower(c));
        i = i + 1;
        assert(s@.subrange(0, i as int).drop_last() =~= s@.subrange(0, i - 1));
        assert(r@ =~= snake_case(s@.subrange(0, i as int)));
    }
    assert(s@.subrange(0, n as int) =~= s@);
    r
}

/// Replaces every `needle` in `haystack` by `replace`.
fn str_replace_inline(haystack: &mut String, needle: char, replace: char)
    ensures
        final(haystack)@ == old(haystack)@.map_values(
            |c: char| if c == needle { replace } else { c },
        ),
{
    let n = haystack.as_str().unicode_len();
    let mut r = String::new();
    let mut i: usize = 0;
    while i < n
        invariant
            n == haystack@.len(),
            i <= n,
            r@ == haystack@.subrange(0, i as int).map_values(
                |c: char| if c == needle { replace } else { c },
            ),
        decreases n - i,
    {
        let c = haystack.as_str().get_char(i);
        if c == needle {
            push_char(&mut r, replace);
        } else {
            push_char(&mut r, c);
        }
        i = i + 1;
        assert(r@ =~= haystack@.subrange(0, i as int).map_values(
            |c: char| if c == needle { replace } else { c },
        ));
    }
    assert(haystack@.subrange(0, n as int) =~= haystack@);
    *haystack = r;
}

impl RenameRule {
    /// Applies the rule to an enum variant declared as `variant`, giving the
    /// name it has in text.
    pub fn apply_to_variant(self, variant: &str) -> (r: String)
        requires
            is_variant_name(variant@),
        ensures
            r@ == apply_rule(self, variant@),
    {
        match self {
            RenameRule::NoRename | RenameRule::PascalCase => variant.to_owned(),
            RenameRule::LowerCase => make_ascii_lowercase(variant),
            RenameRule::UpperCase => make_ascii_uppercase(variant),
            RenameRule::CamelCase => make_camel_case(variant),
            RenameRule::SnakeCase => make_snake_case(variant),
            RenameRule::ScreamingSnakeCase => {
                let snake = make_snake_case(variant);
                make_ascii_uppercase(snake.as_str())
            },
            RenameRule::KebabCase => {
                let mut kebab = make_snake_case(variant);
                str_replace_inline(&mut kebab, '_', '-');
                kebab
            },
            RenameRule::ScreamingKebabCase => {
                let snake = make_snake_case(variant);
                let mut kebab = make_ascii_uppercase(snake.as_str());
                str_replace_inline(&mut kebab, '_', '-');
                kebab
            },
        }
    }
}

} // verus!

verus! {

/// The known rules, in the order in which they are listed.
pub open spec fn rule_table() -> Seq<RenameRule> {
    seq![
        RenameRule::LowerCase,
        RenameRule::UpperCase,
        RenameRule::PascalCase,
        RenameRule::CamelCase,
        RenameRule::SnakeCase,
        RenameRule::ScreamingSnakeCase,
        RenameRule::KebabCase,
        RenameRule::ScreamingKebabCase,
    ]
}

/// The name by which a rule is asked for.
pub open spec fn rule_name(rule: RenameRule) -> Seq<char> {
    match rule {
        RenameRule::NoRename => ""@,
        RenameRule::LowerCase => "lowercase"@,
        RenameRule::UpperCase => "UPPERCASE"@,
        RenameRule::PascalCase => "PascalCase"@,
        RenameRule::CamelCase => "camelCase"@,
        RenameRule::SnakeCase => "snake_case"@,
        RenameRule::ScreamingSnakeCase => "SCREAMING_SNAKE_CASE"@,
        RenameRule::KebabCase => "kebab-case"@,
        RenameRule::ScreamingKebabCase => "SCREAMING-KEBAB-CASE"@,
    }
}

/// The rule that `name` asks for, if any.
pub open spec fn rule_of_name(name: Seq<char>) -> Option<RenameRule> {
    if name == "lowercase"@ {
        Some(RenameRule::LowerCase)
    } else if name == "UPPERCASE"@ {
        Some(RenameRule::UpperCase)
    } else if name == "PascalCase"@ {
        Some(RenameRule::PascalCase)
    } else if name == "camelCase"@ {
        Some(RenameRule::CamelCase)
    } else if name == "snake_case"@ {
        Some(RenameRule::SnakeCase)
    } else if name == "SCREAMING_SNAKE_CASE"@ {
        Some(RenameRule::ScreamingSnakeCase)
    } else if name == "kebab-case"@ {
        Some(RenameRule::KebabCase)
    } else if name == "SCREAMING-KEBAB-CASE"@ {
        Some(RenameRule::ScreamingKebabCase)
    } else {
        None
    }
}

pub open spec fn quoted(s: Seq<char>) -> Seq<char> {
    seq!['"'] + s + seq!['"']
}

/// The first `n` names of the table, each quoted, separated by `", "`.
pub open spec fn quoted_rule_names(n: nat) -> Seq<char>
    decreases n,
{
    if n == 0 {
        seq![]
    } else if n == 1 {
        quoted(rule_name(rule_table()[0]))
    } else {
        quoted_rule_names((n - 1) as nat) + ", "@ + quoted(rule_name(rule_table()[n - 1]))
    }
}

/// What `Debug` writes for a string: the string quoted, with its special
/// characters escaped.
pub uninterp spec fn debug_str(s: Seq<char>) -> Seq<char>;

/// Relies on `<str as Debug>::fmt` through `format!`: the quoted, escaped form
/// of `s`, which depends on `s` alone.
#[verifier::external_body]
fn debug_string(s: &str) -> (r: String)
    ensures
        r@ == debug_str(s@),
{
    format!("{:?}", s)
}

/// The message for a rule name that is not known.
pub open spec fn unknown_rule_message(unknown: Seq<char>) -> Seq<char> {
    "unknown rename rule `rename_all = "@ + debug_str(unknown) + "`, expected one of "@
        + quoted_rule_names(8)
}

/// A rule name that none of the known rules has.
#[derive(Debug, Clone, PartialEq, Eq)]
pub struct ParseError {
    unknown: String,
}

impl ParseError {
    /// The name that was asked for.
    pub fn unknown(&self) -> (r: &str)
        ensures
            r@ == self.spec_unknown(),
    {
        self.unknown.as_str()
    }

    pub closed spec fn spec_unknown(&self) -> Seq<char> {
        self.unknown@
    }

    /// The error's text: the unknown name and the eight names that are known.
    pub fn message(&self) -> (r: String)
        ensures
            r@ == unknown_rule_message(self.spec_unknown()),
    {
        let mut r = String::from_str("unknown rename rule `rename_all = ");
        let d = debug_string(self.unknown.as_str());
        r.append(d.as_str());
        r.append("`, expected one of ");
        let mut i: usize = 0;
        while i < 8
            invariant
                i <= 8,
                r@ == "unknown rename rule `rename_all = "@ + debug_str(self.unknown@)
                    + "`, expected one of "@ + quoted_rule_names(i as nat),
            decreases 8 - i,
        {
            let rule = rule_at(i);
            proof {
                reveal_strlit("\"");
            }
            if i > 0 {
                r.append(", ");
            }
            r.append("\"");
            r.append(rule.name());
            r.append("\"");
            i = i + 1;
            assert(r@ =~= "unknown rename rule `rename_all = "@ + debug_str(self.unknown@)
                + "`, expected one of "@ + quoted_rule_names(i as nat));
        }
        r
    }
}

/// The rule at place `i` of the table.
fn rule_at(i: usize) -> (r: RenameRule)
    requires
        i < 8,
    ensures
        r == rule_table()[i as int],
{
    match i {
        0 => RenameRule::LowerCase,
        1 => RenameRule::UpperCase,
        2 => RenameRule::PascalCase,
        3 => RenameRule::CamelCase,
        4 => RenameRule::SnakeCase,
        5 => RenameRule::ScreamingSnakeCase,
        6 => RenameRule::KebabCase,
        _ => RenameRule::ScreamingKebabCase,
    }
}

/// Whether two strings hold the same characters.
pub(crate) fn str_eq(a: &str, b: &str) -> (r: bool)
    ensures
        r == (a@ == b@),
{
    let n = a.unicode_len();
    if n != b.unicode_len() {
        return false;
    }
    let mut i: usize = 0;
    while i < n
        invariant
            n == a@.len(),
            n == b@.len(),
            i <= n,
            a@.subrange(0, i as int) == b@.subrange(0, i as int),
        decreases n - i,
    {
        if a.get_char(i) != b.get_char(i) {
            return false;
        }
        i = i + 1;
        assert(a@.subrange(0, i as int) =~= a@.subrange(0, i - 1).push(a@[i - 1]));
        assert(b@.subrange(0, i as int) =~= b@.subrange(0, i - 1).push(b@[i - 1]));
    }
    assert(a@ =~= a@.subrange(0, n as int));
    assert(b@ =~= b@.subrange(0, n as int));
    true
}

impl RenameRule {
    /// The name by which the rule is asked for; empty for `NoRename`.
    pub fn name(self) -> (r: &'static str)
        ensures
            r@ == rule_name(self),
    {
        match self {
            RenameRule::NoRename => "",
            RenameRule::LowerCase => "lowercase",
            RenameRule::UpperCase => "UPPERCASE",
            RenameRule::PascalCase => "PascalCase",
            RenameRule::CamelCase => "camelCase",
            RenameRule::SnakeCase => "snake_case",
            RenameRule::ScreamingSnakeCase => "SCREAMING_SNAKE_CASE",
            RenameRule::KebabCase => "kebab-case",
            RenameRule::ScreamingKebabCase => "SCREAMING-KEBAB-CASE",
        }
    }

    /// The rule whose name is `rename_all_str`; an error naming the known
    /// rules if there is none.
    pub fn from_str(rename_all_str: &str) -> (r: Result<RenameRule, ParseError>)
        ensures
            match rule_of_name(rename_all_str@) {
                Some(rule) => r == Ok::<RenameRule, ParseError>(rule),
                None => r matches Err(e) && e.spec_unknown() == rename_all_str@,
            },
    {
        let mut i: usize = 0;
        while i < 8
            invariant
                i <= 8,
                forall|j: int| 0 <= j < i ==> rule_name(#[trigger] rule_table()[j]) != rename_all_str@,
            decreases 8 - i,
        {
            let rule = rule_at(i);
            if str_eq(rename_all_str, rule.name()) {
                return Ok(rule);
            }
            i = i + 1;
        }
        assert(rule_name(rule_table()[0]) != rename_all_str@);
        assert(rule_name(rule_table()[1]) != rename_all_str@);
        assert(rule_name(rule_table()[2]) != rename_all_str@);
        assert(rule_name(rule_table()[3]) != rename_all_str@);
        assert(rule_name(rule_table()[4]) != rename_all_str@);
        assert(rule_name(rule_table()[5]) != rename_all_str@);
        assert(rule_name(rule_table()[6]) != rename_all_str@);
        assert(rule_name(rule_table()[7]) != rename_all_str@);
        Err(ParseError { unknown: rename_all_str.to_owned() })
    }
}

} // verus!

verus! {

/// Every name of the table asks for its own rule.
pub proof fn lemma_rule_names_resolve(rule: RenameRule)
    requires
        rule != RenameRule::NoRename,
    ensures
        rule_of_name(rule_name(rule)) == Some(rule),
{
    reveal_strlit("lowercase");
    reveal_strlit("UPPERCASE");
    reveal_strlit("PascalCase");
    reveal_strlit("camelCase");
    reveal_strlit("snake_case");
    reveal_strlit("SCREAMING_SNAKE_CASE");
    reveal_strlit("kebab-case");
    reveal_strlit("SCREAMING-KEBAB-CASE");
    assert("lowercase"@[0] == 'l');
    assert("UPPERCASE"@[0] == 'U');
    assert("PascalCase"@[0] == 'P');
    assert("camelCase"@[0] == 'c');
    assert("snake_case"@[0] == 's');
    assert("SCREAMING_SNAKE_CASE"@[0] == 'S' && "SCREAMING_SNAKE_CASE"@[9] == '_');
    assert("kebab-case"@[0] == 'k');
    assert("SCREAMING-KEBAB-CASE"@[0] == 'S' && "SCREAMING-KEBAB-CASE"@[9] == '-');
}

/// `NoRename` and `PascalCase` leave every name as it is declared.
pub proof fn lemma_identity_rules(name: Seq<char>)
    ensures
        apply_rule(RenameRule::NoRename, name) == name,
        apply_rule(RenameRule::PascalCase, name) == name,
{
}

pub open spec fn is_ascii_seq(s: Seq<char>) -> bool {
    forall|i: int| 0 <= i < s.len() ==> (#[trigger] s[i] as u32) < 128
}

/// ASCII throughout, with no uppercase letter.
pub open spec fn is_ascii_caseless(s: Seq<char>) -> bool {
    forall|i: int| 0 <= i < s.len() ==> (#[trigger] s[i] as u32) < 128 && !is_ascii_upper(s[i])
}

proof fn lemma_lower_char(c: char)
    ensures
        spec_ascii_lower(spec_ascii_lower(c)) == spec_ascii_lower(c),
        spec_ascii_upper(spec_ascii_upper(c)) == spec_ascii_upper(c),
        (c as u32) < 128 ==> (spec_ascii_lower(c) as u32) < 128,
        !is_ascii_upper(spec_ascii_lower(c)),
{
}

proof fn lemma_snake_caseless(s: Seq<char>)
    requires
        is_ascii_seq(s),
    ensures
        is_ascii_caseless(snake_case(s)),
    decreases s.len(),
{
    if s.len() > 0 {
        lemma_snake_caseless(s.drop_last());
        lemma_lower_char(s.last());
        assert(s.drop_last().len() < s.len());
        assert(forall|i: int| 0 <= i < s.drop_last().len() ==> s.drop_last()[i] == s[i]);
    }
}

proof fn lemma_snake_of_caseless(s: Seq<char>)
    requires
        is_ascii_caseless(s),
    ensures
        snake_case(s) == s,
    decreases s.len(),
{
    if s.len() > 0 {
        let t = s.drop_last();
        assert(is_ascii_caseless(t)) by {
            assert(forall|i: int| 0 <= i < t.len() ==> t[i] == s[i]);
        }
        lemma_snake_of_caseless(t);
        assert((s[s.len() - 1] as u32) < 128);
        assert(s =~= t.push(s.last()));
    }
}

/// Repeating a rule on a name it has already normalized changes nothing, for
/// each rule that only lowers case or only marks word boundaries. (The
/// screaming rules are left out: their uppercase output has a boundary before
/// every letter when read again.)
pub proof fn lemma_normalized_fixed_point(rule: RenameRule, name: Seq<char>)
    requires
        is_variant_name(name),
        is_ascii_seq(name),
        rule != RenameRule::ScreamingSnakeCase,
        rule != RenameRule::ScreamingKebabCase,
    ensures
        apply_rule(rule, apply_rule(rule, name)) == apply_rule(rule, name),
{
    let once = apply_rule(rule, name);
    match rule {
        RenameRule::LowerCase => {
            assert forall|i: int| 0 <= i < name.len() implies #[trigger] lowercase(once)[i]
                == once[i] by {
                lemma_lower_char(name[i]);
            }
            assert(lowercase(once) =~= once);
        },
        RenameRule::UpperCase => {
            assert forall|i: int| 0 <= i < name.len() implies #[trigger] uppercase(once)[i]
                == once[i] by {
                lemma_lower_char(name[i]);
            }
            assert(uppercase(once) =~= once);
        },
        RenameRule::CamelCase => {
            lemma_lower_char(name[0]);
            assert(camel_case(once) =~= once);
        },
        RenameRule::SnakeCase => {
            lemma_snake_caseless(name);
            lemma_snake_of_caseless(once);
        },
        RenameRule::KebabCase => {
            let snake = snake_case(name);
            lemma_snake_caseless(name);
            assert(is_ascii_caseless(once));
            lemma_snake_of_caseless(once);
            assert(underscores_to_dashes(once) =~= once);
        },
        _ => {},
    }
}

} // verus!

verus! {

/// The list that the error for an unknown rule gives: all eight names, in
/// the order of the table, quoted and separated by commas.
pub proof fn lemma_rule_list()
    ensures
        quoted_rule_names(8) == "\"lowercase\", \"UPPERCASE\", \"PascalCase\", \"camelCase\", \"snake_case\", \"SCREAMING_SNAKE_CASE\", \"kebab-case\", \"SCREAMING-KEBAB-CASE\""@,
{
    reveal_with_fuel(quoted_rule_names, 9);
    reveal_strlit("\"lowercase\", \"UPPERCASE\", \"PascalCase\", \"camelCase\", \"snake_case\", \"SCREAMING_SNAKE_CASE\", \"kebab-case\", \"SCREAMING-KEBAB-CASE\"");
    reveal_strlit(", ");
    reveal_strlit("lowercase");
    reveal_strlit("UPPERCASE");
    reveal_strlit("PascalCase");
    reveal_strlit("camelCase");
    reveal_strlit("snake_case");
    reveal_strlit("SCREAMING_SNAKE_CASE");
    reveal_strlit("kebab-case");
    reveal_strlit("SCREAMING-KEBAB-CASE");
    assert(quoted_rule_names(8) =~= "\"lowercase\", \"UPPERCASE\", \"PascalCase\", \"camelCase\", \"snake_case\", \"SCREAMING_SNAKE_CASE\", \"kebab-case\", \"SCREAMING-KEBAB-CASE\""@);
}

} // verus!
