//! Utility functions for working with the controller's string objects and
//! the application-bundle environment.

use vstd::prelude::*;

use crate::model::text_of;
use crate::touchbar::Touchbar;

verus! {

/// Reads a native string object back into a `String`: the stored contents
/// for a live string reference, and the empty string for anything else.
pub fn nsstring_decode(tb: &Touchbar, s: u64) -> (r: String)
    requires
        tb.wf(),
    ensures
        match text_of(tb@.store, s) {
            Some(c) => r@ == c,
            None => r@ == Seq::<char>::empty(),
        },
{
    match tb.store_text(s) {
        Some(t) => t,
        None => String::new(),
    }
}

/// Locates a resource by name and extension in the executing application
/// bundle's resources.  This build runs without a bundle, so no resource
/// can ever be found.
pub fn bundled_resource_path(name: &str, extension: &str) -> (r: Option<String>)
    ensures
        r is None,
{
    let _ = name;
    let _ = extension;
    None
}

} // verus!
