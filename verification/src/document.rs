//! The `<link>` elements of an HTML document, as plain values.

use vstd::prelude::*;
use soup::{NodeExt, QueryBuilderExt, Soup};
use crate::text::opt_text;

verus! {

/// The attributes of one `<link>` element that icon discovery reads. An
/// attribute that the element does not carry is `None`.
#[derive(Debug)]
pub struct LinkTag {
    pub rel: Option<String>,
    pub href: Option<String>,
    pub sizes: Option<String>,
}

/// What a [`LinkTag`] stands for: the characters of its three attributes.
pub ghost struct LinkTagView {
    pub rel: Option<Seq<char>>,
    pub href: Option<Seq<char>>,
    pub sizes: Option<Seq<char>>,
}

impl View for LinkTag {
    type V = LinkTagView;

    open spec fn view(&self) -> LinkTagView {
        LinkTagView {
            rel: opt_text(self.rel),
            href: opt_text(self.href),
            sizes: opt_text(self.sizes),
        }
    }
}

/// The models of a list of link elements, in order.
pub open spec fn tag_views(tags: Seq<LinkTag>) -> Seq<LinkTagView> {
    tags.map_values(|tag: LinkTag| tag@)
}

/// The `<link>` elements of the document that the HTML text `html` parses to,
/// in document order, as the `soup` crate finds them.
pub uninterp spec fn document_links(html: Seq<char>) -> Seq<LinkTagView>;

/// Trusted: parses `html` with `soup::Soup::new`, asks for every element with
/// tag `link` (`tag` and `find_all` of `soup::QueryBuilderExt`) and copies
/// `rel`, `href` and `sizes` out of each with `soup::NodeExt::get`. The
/// contract only gives the outcome a name.
#[verifier::external_body]
pub(crate) fn link_tags(html: &str) -> (tags: Vec<LinkTag>)
    ensures
        tag_views(tags@) == document_links(html@),
{
    Soup::new(html)
        .tag("link")
        .find_all()
        .map(|node| LinkTag { rel: node.get("rel"), href: node.get("href"), sizes: node.get("sizes") })
        .collect()
}

} // verus!
