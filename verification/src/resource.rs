//! From request path to resource: the mapping onto the pages directory,
//! and the test that keeps a request inside it.

use crate::text::chars_of;
use vstd::prelude::*;
use vstd::string::StringExecFns;

verus! {

/// The resource that answers a request for `/`.
pub open spec fn default_resource() -> Seq<char> {
    "./src/pages/index.html"@
}

/// The page that is served when a resource does not exist.
pub open spec fn fallback_resource() -> Seq<char> {
    "./src/pages/404.html"@
}

/// The resource that a request path names: the default resource for `/`,
/// and for any other path the page of that name in the pages directory.
pub open spec fn resource_for(path: Seq<char>) -> Seq<char> {
    if path == seq!['/'] {
        default_resource()
    } else {
        "./src/pages/"@ + path + ".html"@
    }
}

/// The characters that end a path segment.
pub open spec fn is_separator(c: char) -> bool {
    c == '/' || c == '\\'
}

/// A segment `..` stands at index `i` of `p`.
pub open spec fn parent_segment_at(p: Seq<char>, i: int) -> bool {
    &&& 0 <= i && i + 2 <= p.len()
    &&& p[i] == '.' && p[i + 1] == '.'
    &&& (i == 0 || is_separator(p[i - 1]))
    &&& (i + 2 == p.len() || is_separator(p[i + 2]))
}

/// `p` holds a segment `..`, by which it could leave the pages directory.
pub open spec fn climbs(p: Seq<char>) -> bool {
    exists|i: int| parent_segment_at(p, i)
}

/// Maps a request path to the resource that answers it.
pub fn resolve(path: &str) -> (resource: String)
    ensures
        resource@ == resource_for(path@),
{
    let chars = chars_of(path);
    if chars.len() == 1 && chars[0] == '/' {
        assert(path@ =~= seq!['/']);
        String::from_str("./src/pages/index.html")
    } else {
        let mut resource = String::from_str("./src/pages/");
        resource.append(path);
        resource.append(".html");
        resource
    }
}

/// The page that is served when a resource does not exist.
pub fn fallback() -> (resource: String)
    ensures
        resource@ == fallback_resource(),
{
    String::from_str("./src/pages/404.html")
}

/// Decides whether a request path holds a segment `..`.
pub fn has_parent_segment(path: &str) -> (r: bool)
    ensures
        r == climbs(path@),
{
    let p = chars_of(path);
    let n = p.len();
    let mut i: usize = 0;
    while i < n
        invariant
            n == p@.len(),
            p@ == path@,
            i <= n,
            forall|j: int| 0 <= j < i ==> !parent_segment_at(p@, j),
        decreases n - i,
    {
        if n - i >= 2 && p[i] == '.' && p[i + 1] == '.' && (i == 0 || p[i - 1] == '/' || p[i - 1]
            == '\\') && (i + 2 == n || p[i + 2] == '/' || p[i + 2] == '\\') {
            assert(parent_segment_at(p@, i as int));
            return true;
        }
        i = i + 1;
    }
    false
}

} // verus!
