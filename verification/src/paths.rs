//! Joining path components the way `std::path::Path::join` does on Unix.
use crate::text::concat;
use crate::text::concat3;
use vstd::prelude::*;

verus! {

/// `base` joined with `component`: an absolute component replaces the base; otherwise the two
/// are separated by one `/` unless the base is empty or already ends with `/`.
pub open spec fn joined(base: Seq<char>, component: Seq<char>) -> Seq<char> {
    if component.len() > 0 && component[0] == '/' {
        component
    } else if base.len() == 0 || base.last() == '/' {
        base + component
    } else {
        base + "/"@ + component
    }
}

/// `base` joined with `component`.
pub fn join(base: &str, component: &str) -> (r: String)
    ensures
        r@ == joined(base@, component@),
{
    let b = crate::text::chars_of(base);
    let c = crate::text::chars_of(component);
    if c.len() > 0 && c[0] == '/' {
        component.to_owned()
    } else if b.len() == 0 || b[b.len() - 1] == '/' {
        concat(base, component)
    } else {
        concat3(base, "/", component)
    }
}

} // verus!
