//! The icons the application adds to the default icon set.

use vstd::prelude::*;
use crate::text::{str_eq, string_of};

verus! {

/// The key the cloud icon is served under.
pub open spec fn cloud_path() -> Seq<char> {
    "icons/cloud.svg"@
}

/// The cloud icon (Lucide `cloud`, in the stroke style of the default set).
pub open spec fn cloud_svg() -> Seq<char> {
    "<svg\n    xmlns=\"http://www.w3.org/2000/svg\"\n    width=\"24\"\n    height=\"24\"\n    viewBox=\"0 0 24 24\"\n    fill=\"none\"\n    stroke=\"currentColor\"\n    stroke-width=\"2\"\n    stroke-linecap=\"round\"\n    stroke-linejoin=\"round\"\n    class=\"lucide lucide-cloud\"\n><path d=\"M17.5 19H9a7 7 0 1 1 6.71-9h1.79a4.5 4.5 0 1 1 0 9Z\" /></svg>"@
}

/// The added icon served at `path`, if any; other paths go to the default set.
pub fn custom_icon(path: &str) -> (r: Option<&'static str>)
    ensures
        path@ == cloud_path() ==> (r matches Some(svg) && svg@ == cloud_svg()),
        path@ != cloud_path() ==> r is None,
{
    if str_eq(path, "icons/cloud.svg") {
        Some("<svg\n    xmlns=\"http://www.w3.org/2000/svg\"\n    width=\"24\"\n    height=\"24\"\n    viewBox=\"0 0 24 24\"\n    fill=\"none\"\n    stroke=\"currentColor\"\n    stroke-width=\"2\"\n    stroke-linecap=\"round\"\n    stroke-linejoin=\"round\"\n    class=\"lucide lucide-cloud\"\n><path d=\"M17.5 19H9a7 7 0 1 1 6.71-9h1.79a4.5 4.5 0 1 1 0 9Z\" /></svg>")
    } else {
        None
    }
}

/// The listing of `path` from the default set, with the cloud icon added
/// (once) when the root or the icon directory is listed.
pub fn list_with_custom(path: &str, listed: Vec<String>) -> (r: Vec<String>)
    ensures
        (path@.len() == 0 || path@ == "icons"@) && !(exists|i: int| 0 <= i < listed@.len() && #[trigger] listed@[i]@
            == cloud_path()) ==> r@.len() == listed@.len() + 1 && r@.drop_last() == listed@ && r@.last()@
            == cloud_path(),
        !((path@.len() == 0 || path@ == "icons"@) && !(exists|i: int| 0 <= i < listed@.len() && #[trigger] listed@[i]@
            == cloud_path())) ==> r@ == listed@,
{
    let mut listed = listed;
    if path.unicode_len() == 0 || str_eq(path, "icons") {
        let n = listed.len();
        let mut i: usize = 0;
        let mut found = false;
        while i < n
            invariant
                n == listed.len(),
                i <= n,
                found == exists|j: int| 0 <= j < i && #[trigger] listed@[j]@ == cloud_path(),
            decreases n - i,
        {
            if str_eq(listed[i].as_str(), "icons/cloud.svg") {
                found = true;
            }
            i = i + 1;
        }
        if !found {
            let ghost before = listed@;
            listed.push(string_of("icons/cloud.svg"));
            assert(listed@.drop_last() =~= before);
        }
    }
    listed
}

} // verus!
