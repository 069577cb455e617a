//! Making an icon's address absolute against the origin that served the page.

use vstd::prelude::*;
use vstd::string::*;
use crate::text::{has_prefix, starts_with};

verus! {

/// The scheme of the origin `base`: `https` where it begins so, else `http`.
pub open spec fn scheme_of(base: Seq<char>) -> Seq<char> {
    if has_prefix(base, "https"@) {
        "https"@
    } else {
        "http"@
    }
}

/// The absolute address of `href` as found on a page served from `base`.
///
/// An address that begins with `//` takes the scheme of `base`; one that
/// begins with `http` stands as it is; any other is put behind `base`, with a
/// `/` between the two unless it brings its own.
pub open spec fn resolved_href(href: Seq<char>, base: Seq<char>) -> Seq<char> {
    if has_prefix(href, "//"@) {
        scheme_of(base) + ":"@ + href
    } else if has_prefix(href, "http"@) {
        href
    } else if has_prefix(href, "/"@) {
        base + href
    } else {
        base + "/"@ + href
    }
}

/// Resolves `href` against the origin `base`.
pub fn resolve_href(href: &str, base: &str) -> (full: String)
    ensures
        full@ == resolved_href(href@, base@),
{
    if starts_with(href, "//") {
        let mut full = if starts_with(base, "https") {
            String::from_str("https")
        } else {
            String::from_str("http")
        };
        full.append(":");
        full.append(href);
        full
    } else if starts_with(href, "http") {
        String::from_str(href)
    } else if starts_with(href, "/") {
        let mut full = String::from_str(base);
        full.append(href);
        full
    } else {
        let mut full = String::from_str(base);
        full.append("/");
        full.append(href);
        full
    }
}

/// An address that begins with `http` comes back unchanged.
pub proof fn lemma_resolve_absolute(href: Seq<char>, base: Seq<char>)
    requires
        has_prefix(href, "http"@),
    ensures
        resolved_href(href, base) == href,
{
    reveal_strlit("http");
    reveal_strlit("//");
    if has_prefix(href, "//"@) {
        assert(href.subrange(0, 2)[0] == '/');
        assert(href.subrange(0, 4)[0] == 'h');
    }
}

/// Against an origin that begins with `http`, every resolved address begins
/// with `http` too: nothing of the form `//host/path` or `/path` is left, and
/// resolving a second time changes nothing.
pub proof fn lemma_resolved_is_absolute(href: Seq<char>, base: Seq<char>)
    requires
        has_prefix(base, "http"@),
    ensures
        has_prefix(resolved_href(href, base), "http"@),
        resolved_href(resolved_href(href, base), base) == resolved_href(href, base),
{
    reveal_strlit("http");
    reveal_strlit("https");
    reveal_strlit(":");
    reveal_strlit("/");
    let full = resolved_href(href, base);
    let head = "http"@;
    if has_prefix(href, "//"@) {
        assert(full.subrange(0, 4) =~= head);
    } else if has_prefix(href, "http"@) {
    } else {
        assert(base.subrange(0, 4) == head);
        assert forall|i: int| 0 <= i < 4 implies full.subrange(0, 4)[i] == head[i] by {
            assert(base.subrange(0, 4)[i] == base[i]);
        }
        assert(full.subrange(0, 4) =~= head);
    }
    lemma_resolve_absolute(full, base);
}

} // verus!
