//! The error of reading a string that names no variant.

use vstd::prelude::*;

use crate::case::push_char;

verus! {

/// A comma after each of `items`.
pub open spec fn comma_list(items: Seq<Seq<char>>) -> Seq<char>
    decreases items.len(),
{
    if items.len() == 0 {
        seq![]
    } else {
        comma_list(items.drop_last()) + items.last() + ", "@
    }
}

/// `a, b, c or d`: the items separated by commas, the last two by the
/// joiner. Stated for two items or more.
pub open spec fn oxford_comma(items: Seq<Seq<char>>, joiner: Seq<char>) -> Seq<char> {
    let n = items.len();
    comma_list(items.subrange(0, n - 2)) + items[n - 2] + " "@ + joiner + " "@ + items[n - 1]
}

/// The text of the error when the expected names are `items`.
pub open spec fn invalid_variant_message(items: Seq<Seq<char>>) -> Seq<char> {
    if items.len() == 0 {
        "invalid variant"@
    } else if items.len() == 1 {
        "invalid variant, expected "@ + items[0]
    } else {
        "invalid variant, expected one of: "@ + oxford_comma(items, "or"@)
    }
}

pub(crate) fn append_string(s: &mut String, t: &String)
    ensures
        final(s)@ == old(s)@ + t@,
{
    s.append(t.as_str());
}

/// The text of the error when the expected names are `items`.
pub fn invalid_variant_text(items: &Vec<String>) -> (r: String)
    ensures
        r@ == invalid_variant_message(items@.map_values(|s: String| s@)),
{
    let ghost v = items@.map_values(|s: String| s@);
    let n = items.len();
    if n == 0 {
        return String::from_str("invalid variant");
    }
    if n == 1 {
        let mut r = String::from_str("invalid variant, expected ");
        append_string(&mut r, &items[0]);
        return r;
    }
    let mut r = String::from_str("invalid variant, expected one of: ");
    let mut i: usize = 0;
    while i < n - 2
        invariant
            n == items@.len(),
            n >= 2,
            i <= n - 2,
            v == items@.map_values(|s: String| s@),
            r@ == "invalid variant, expected one of: "@ + comma_list(v.subrange(0, i as int)),
        decreases n - 2 - i,
    {
        append_string(&mut r, &items[i]);
        r.append(", ");
        i = i + 1;
        assert(v.subrange(0, i as int).drop_last() =~= v.subrange(0, i - 1));
    }
    append_string(&mut r, &items[n - 2]);
    r.append(" or ");
    append_string(&mut r, &items[n - 1]);
    proof {
        reveal_strlit(" or ");
        reveal_strlit(" ");
        reveal_strlit("or");
        assert(" or "@ =~= " "@ + "or"@ + " "@);
    }
    assert(r@ =~= invalid_variant_message(v));
    r
}

/// A string that is none of the names a type is read from.
#[derive(Debug, PartialEq, Eq, PartialOrd, Ord, Hash, Clone, Copy)]
pub struct InvalidVariantError {
    variants: &'static [&'static str],
}

impl InvalidVariantError {
    /// An error that lists `variants` as the names expected.
    pub fn new(variants: &'static [&'static str]) -> (r: Self)
        ensures
            r.expected() == variants@.map_values(|s: &str| s@),
    {
        InvalidVariantError { variants }
    }

    /// The names expected.
    pub closed spec fn expected(&self) -> Seq<Seq<char>> {
        self.variants@.map_values(|s: &str| s@)
    }

    /// The names expected.
    pub fn variants(&self) -> (r: &'static [&'static str])
        ensures
            r@.map_values(|s: &str| s@) == self.expected(),
    {
        self.variants
    }

    /// The error's text: `invalid variant`, then what was expected, if
    /// anything was.
    pub fn message(&self) -> (r: String)
        ensures
            r@ == invalid_variant_message(self.expected()),
    {
        let mut items: Vec<String> = Vec::new();
        let mut i: usize = 0;
        while i < self.variants.len()
            invariant
                i <= self.variants@.len(),
                items@.len() == i,
                forall|k: int| 0 <= k < i ==> (#[trigger] items@[k])@ == self.variants@[k]@,
            decreases self.variants@.len() - i,
        {
            let v: &str = self.variants[i];
            let item = v.to_owned();
            assert(item@ == self.variants@[i as int]@);
            items.push(item);
            i = i + 1;
        }
        assert(items@.map_values(|s: String| s@) =~= self.variants@.map_values(|s: &str| s@));
        invalid_variant_text(&items)
    }
}

} // verus!
