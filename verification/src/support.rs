//! Rule fields that need features not enabled yet (`@js:` and XPath).

use vstd::prelude::*;

use crate::query::{is_js, is_xpath, requires_js, requires_xpath};

verus! {

/// The first field at or after `j` that embeds `@js:` (`true`) or, when not
/// empty, uses XPath (`false`), with its index.
pub open spec fn first_unsupported(values: Seq<Seq<char>>, j: int) -> Option<(int, bool)>
    decreases values.len() - j,
{
    if j < 0 || j >= values.len() {
        None
    } else if is_js(values[j]) {
        Some((j, true))
    } else if values[j].len() > 0 && is_xpath(values[j]) {
        Some((j, false))
    } else {
        first_unsupported(values, j + 1)
    }
}

/// The views of a list of string slices.
pub open spec fn strs_view(v: Seq<&str>) -> Seq<Seq<char>> {
    v.map_values(|s: &str| s@)
}

/// Finds the first field that needs `@js:` or XPath.
pub fn find_unsupported(values: &[&str]) -> (r: Option<(usize, bool)>)
    ensures
        match r {
            Some((i, js)) => i < values@.len() && first_unsupported(strs_view(values@), 0) == Some(
                (i as int, js),
            ),
            None => first_unsupported(strs_view(values@), 0) is None,
        },
{
    let ghost vs = strs_view(values@);
    let n = values.len();
    let mut j: usize = 0;
    while j < n
        invariant
            n == values@.len(),
            vs == strs_view(values@),
            j <= n,
            first_unsupported(vs, 0) == first_unsupported(vs, j as int),
        decreases n - j,
    {
        assert(vs[j as int] == values@[j as int]@);
        if requires_js(values[j]) {
            return Some((j, true));
        }
        if values[j].unicode_len() > 0 && requires_xpath(values[j]) {
            return Some((j, false));
        }
        j += 1;
    }
    None
}

} // verus!
