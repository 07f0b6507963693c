//! The recipes shipped with the binary, looked up by name.

use vstd::prelude::*;

use crate::strings::str_eq;

verus! {

/// The bundled recipe names, in catalogue order.
pub open spec fn bundled_names() -> Seq<Seq<char>> {
    seq!["web"@, "gallery"@, "product"@]
}

/// The TOML text of the bundled `web` recipe.
pub const WEB_TOML: &'static str = "version = \"1\"\nname = \"web\"\ndescription = \"Upright, web-sized, optimized\"\n\n[[step]]\nop = \"auto-orient\"\n\n[[step]]\nop = \"optimize\"\n";

/// The TOML text of the bundled `gallery` recipe.
pub const GALLERY_TOML: &'static str = "version = \"1\"\nname = \"gallery\"\ndescription = \"Upright gallery images, optimized\"\n\n[[step]]\nop = \"auto-orient\"\n\n[[step]]\nop = \"optimize\"\n";

/// The TOML text of the bundled `product` recipe.
pub const PRODUCT_TOML: &'static str = "version = \"1\"\nname = \"product\"\ndescription = \"Upright product shots, optimized\"\n\n[[step]]\nop = \"auto-orient\"\n\n[[step]]\nop = \"optimize\"\n";

/// The text of the bundled recipe called `name` (exact, case-sensitive).
pub open spec fn spec_resolve(name: Seq<char>) -> Option<Seq<char>> {
    if name == "web"@ {
        Some(WEB_TOML@)
    } else if name == "gallery"@ {
        Some(GALLERY_TOML@)
    } else if name == "product"@ {
        Some(PRODUCT_TOML@)
    } else {
        None
    }
}

/// Resolve a bundled recipe name to its TOML text, or `None` when no bundled
/// recipe carries that name. Case-sensitive, exact match.
pub fn resolve(name: &str) -> (r: Option<&'static str>)
    ensures
        match r {
            Some(t) => spec_resolve(name@) == Some(t@),
            None => spec_resolve(name@) is None,
        },
{
    if str_eq(name, "web") {
        Some(WEB_TOML)
    } else if str_eq(name, "gallery") {
        Some(GALLERY_TOML)
    } else if str_eq(name, "product") {
        Some(PRODUCT_TOML)
    } else {
        None
    }
}

/// The bundled recipe names, in catalogue order.
pub fn names() -> (v: Vec<&'static str>)
    ensures
        crate::lint::strs_view(v@) == bundled_names(),
{
    let v = vec!["web", "gallery", "product"];
    assert(crate::lint::strs_view(v@) =~= bundled_names());
    v
}

} // verus!
