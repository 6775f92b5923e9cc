//! Template substitution for endpoint paths.

use vstd::prelude::*;
use crate::text::{chars_of, replace_first, replace_first_chars, string_of};

verus! {

/// The placeholder that `format` fills: `{}`.
pub open spec fn placeholder() -> Seq<char> {
    seq!['{', '}']
}

/// `template` with the first placeholder replaced by `values[0]`, the first
/// placeholder of that result replaced by `values[1]`, and so on.
pub open spec fn formatted(template: Seq<char>, values: Seq<Seq<char>>) -> Seq<char>
    decreases values.len(),
{
    if values.len() == 0 {
        template
    } else {
        replace_first(formatted(template, values.drop_last()), placeholder(), values.last())
    }
}

/// The views of a slice of string slices.
pub open spec fn views_of(values: Seq<&str>) -> Seq<Seq<char>> {
    values.map_values(|v: &str| v@)
}

/// Formats a template string by filling each `{}` in turn with the next value.
pub fn format(template: &str, values: &[&str]) -> (r: String)
    ensures
        r@ == formatted(template@, views_of(values@)),
{
    let pat: Vec<char> = vec!['{', '}'];
    let mut result = chars_of(template);
    let mut i: usize = 0;
    while i < values.len()
        invariant
            i <= values@.len(),
            pat@ == placeholder(),
            result@ == formatted(template@, views_of(values@.subrange(0, i as int))),
        decreases values.len() - i,
    {
        let value = chars_of(values[i]);
        result = replace_first_chars(&result, &pat, &value);
        proof {
            let next = values@.subrange(0, i + 1);
            assert(next.drop_last() =~= values@.subrange(0, i as int));
            assert(views_of(next).drop_last() =~= views_of(values@.subrange(0, i as int)));
        }
        i = i + 1;
    }
    assert(values@.subrange(0, values@.len() as int) =~= values@);
    string_of(&result)
}

} // verus!
