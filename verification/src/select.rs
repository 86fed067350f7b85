//! Resolving the picker's raw result to a catalog entry.

use vstd::prelude::*;
use crate::catalog::Catalog;
use crate::text::trim;
use crate::text::trimmed;

verus! {

/// The selection a picker result resolves to: the path stored under the
/// trimmed output, unless the picker failed, the trimmed output is empty, or
/// no catalog entry carries that name — then there is no selection.
pub open spec fn spec_selection(
    catalog: Map<Seq<char>, Seq<char>>,
    exit_ok: bool,
    raw: Seq<char>,
) -> Option<Seq<char>> {
    if !exit_ok {
        Option::None
    } else {
        let t = trimmed(raw);
        if t.len() == 0 || !catalog.dom().contains(t) {
            Option::None
        } else {
            Option::Some(catalog[t])
        }
    }
}

/// Resolves what the picker reported — its exit status and raw standard
/// output — against the catalog. Surrounding whitespace in the raw output is
/// ignored; a failed exit, an empty choice, or an unknown filename yields no
/// selection.
pub fn resolve_selection(catalog: &Catalog, exit_ok: bool, raw: &str) -> (r: Option<String>)
    requires
        catalog.wf(),
    ensures
        match r {
            Some(p) => spec_selection(catalog.as_map(), exit_ok, raw@) == Option::Some(p@),
            None => spec_selection(catalog.as_map(), exit_ok, raw@) is None,
        },
{
    if !exit_ok {
        return None;
    }
    let t = trim(raw);
    if t.unicode_len() == 0 {
        return None;
    }
    let name = t.to_owned();
    assert(name@ == trimmed(raw@));
    catalog.get(&name)
}

} // verus!
