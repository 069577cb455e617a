//! From a fetched page to the ranked list of candidate icons.

use vstd::prelude::*;
use vstd::string::*;
use crate::cookies::{cookie_string, cookie_text};
use crate::document::{document_links, link_tags, tag_views, LinkTag, LinkTagView};
use crate::href::{lemma_resolved_is_absolute, resolve_href, resolved_href};
use crate::icon::{icon_views, Icon, IconView};
use crate::pattern::{is_match, pattern_match};
use crate::priority::{declared_size, get_icon_priority, icon_priority, lemma_priority_values};
use crate::rank::{
    is_sorted, lemma_ranked_contains, lemma_ranked_stable, ranked, sort_icons, with_priority,
};
use crate::text::has_prefix;

verus! {

/// The priority of the default `/favicon.ico` candidate.
pub const SEED_PRIORITY: u8 = 35;

/// What a page is left with once it was fetched: the origin that served it
/// after redirects (scheme and host, no trailing `/`), its HTML, and the
/// values of the `Set-Cookie` headers of the response.
#[derive(Debug)]
pub struct Page {
    pub base_url: String,
    pub body: String,
    pub set_cookies: Vec<String>,
}

/// The pattern that the `rel` attribute of an icon link matches.
pub open spec fn rel_pattern_text() -> Seq<char> {
    "icon$|apple.*icon"@
}

/// The pattern that the `href` attribute of an icon link matches: a file name
/// with one of the image extensions, and a query string if any.
pub open spec fn href_pattern_text() -> Seq<char> {
    "(?i)\\w+\\.(jpg|jpeg|png|ico)(\\?.*)?$"@
}

/// The pattern for the `rel` attribute, for the pattern engine.
pub fn rel_pattern() -> (p: &'static str)
    ensures
        p@ == rel_pattern_text(),
{
    "icon$|apple.*icon"
}

/// The pattern for the `href` attribute, for the pattern engine.
pub fn href_pattern() -> (p: &'static str)
    ensures
        p@ == href_pattern_text(),
{
    "(?i)\\w+\\.(jpg|jpeg|png|ico)(\\?.*)?$"
}

/// A link element declares an icon where it carries a `rel` and an `href`
/// attribute and each matches its pattern.
pub open spec fn is_icon_link(tag: LinkTagView) -> bool {
    match (tag.rel, tag.href) {
        (Some(rel), Some(href)) => pattern_match(rel_pattern_text(), rel) && pattern_match(
            href_pattern_text(),
            href,
        ),
        _ => false,
    }
}

/// The candidate that an icon link on a page served from `base` declares: its
/// address made absolute, scored by that address and the declared size.
pub open spec fn link_icon(base: Seq<char>, tag: LinkTagView) -> IconView {
    let href = resolved_href(tag.href.unwrap(), base);
    IconView { priority: icon_priority(href, tag.sizes), href }
}

/// The candidates that the link elements `tags` declare, in document order.
pub open spec fn link_icons(base: Seq<char>, tags: Seq<LinkTagView>) -> Seq<IconView>
    decreases tags.len(),
{
    if tags.len() == 0 {
        Seq::empty()
    } else if is_icon_link(tags.last()) {
        link_icons(base, tags.drop_last()).push(link_icon(base, tags.last()))
    } else {
        link_icons(base, tags.drop_last())
    }
}

/// The default candidate: `/favicon.ico` at the origin `base`.
pub open spec fn seed_icon(base: Seq<char>) -> IconView {
    IconView { priority: SEED_PRIORITY, href: base + "/favicon.ico"@ }
}

/// All candidates of a page, unranked: the declared ones, then the default.
pub open spec fn candidates(base: Seq<char>, tags: Seq<LinkTagView>) -> Seq<IconView> {
    link_icons(base, tags).push(seed_icon(base))
}

/// The `https` origin guessed for `domain`.
pub open spec fn https_origin_text(domain: Seq<char>) -> Seq<char> {
    "https://"@ + domain
}

/// The `http` origin guessed for `domain`.
pub open spec fn http_origin_text(domain: Seq<char>) -> Seq<char> {
    "http://"@ + domain
}

/// The candidates for a domain whose page could not be fetched: the default
/// at the `https` origin, then the default at the `http` origin.
pub open spec fn default_icons(domain: Seq<char>) -> Seq<IconView> {
    seq![seed_icon(https_origin_text(domain)), seed_icon(http_origin_text(domain))]
}

/// The ranked candidates of a page served from `base` whose link elements
/// are `tags`.
pub open spec fn ranked_candidates(base: Seq<char>, tags: Seq<LinkTagView>) -> Seq<IconView> {
    ranked(candidates(base, tags))
}

/// The answer for `domain`: the ranked candidates of its page where there is
/// one, else the two defaults.
pub open spec fn resolved_icons(domain: Seq<char>, page: Option<&Page>) -> Seq<IconView> {
    match page {
        Some(p) => ranked_candidates(p.base_url@, document_links(p.body@)),
        None => default_icons(domain),
    }
}

/// The cookie string for a fetch: that of the page's headers where there is
/// a page, else empty.
pub open spec fn resolved_cookies(page: Option<&Page>) -> Seq<char> {
    match page {
        Some(p) => cookie_text(p.set_cookies@),
        None => Seq::empty(),
    }
}

/// The `https` origin of `domain`.
pub fn https_origin(domain: &str) -> (origin: String)
    ensures
        origin@ == https_origin_text(domain@),
{
    let mut origin = String::from_str("https://");
    origin.append(domain);
    origin
}

/// The `http` origin of `domain`.
pub fn http_origin(domain: &str) -> (origin: String)
    ensures
        origin@ == http_origin_text(domain@),
{
    let mut origin = String::from_str("http://");
    origin.append(domain);
    origin
}

/// The address to request after `failed` attempts have failed: the `https`
/// origin first, the `http` origin after one failure, and none after that.
pub fn next_attempt(domain: &str, failed: u8) -> (target: Option<String>)
    ensures
        failed == 0 ==> target is Some && target.unwrap()@ == https_origin_text(domain@),
        failed == 1 ==> target is Some && target.unwrap()@ == http_origin_text(domain@),
        failed >= 2 <==> target is None,
{
    if failed == 0 {
        Some(https_origin(domain))
    } else if failed == 1 {
        Some(http_origin(domain))
    } else {
        None
    }
}

/// The default candidate at the origin `base`.
pub fn seed(base: &str) -> (icon: Icon)
    ensures
        icon@ == seed_icon(base@),
{
    let mut href = String::from_str(base);
    href.append("/favicon.ico");
    Icon::new(SEED_PRIORITY, href)
}

/// Whether `tag` declares an icon.
pub fn is_icon_tag(tag: &LinkTag) -> (b: bool)
    ensures
        b == is_icon_link(tag@),
{
    match (&tag.rel, &tag.href) {
        (Some(rel), Some(href)) => is_match(rel_pattern(), rel.as_str()) && is_match(
            href_pattern(),
            href.as_str(),
        ),
        _ => false,
    }
}

/// The candidate that `tag` declares on a page served from `base`, if it
/// declares an icon.
pub fn candidate_of(base: &str, tag: &LinkTag) -> (icon: Option<Icon>)
    ensures
        icon is Some <==> is_icon_link(tag@),
        icon is Some ==> icon.unwrap()@ == link_icon(base@, tag@),
{
    if !is_icon_tag(tag) {
        return None;
    }
    match &tag.href {
        Some(href) => {
            let full = resolve_href(href.as_str(), base);
            let sizes = match &tag.sizes {
                Some(s) => Some(s.clone()),
                None => None,
            };
            let priority = get_icon_priority(full.as_str(), sizes);
            Some(Icon::new(priority, full))
        },
        None => None,
    }
}

/// All candidates of a page served from `base` with the link elements `tags`,
/// in discovery order: the declared icons, then the default.
pub fn collect_candidates(base: &str, tags: &Vec<LinkTag>) -> (list: Vec<Icon>)
    ensures
        icon_views(list@) == candidates(base@, tag_views(tags@)),
{
    let ghost all = tag_views(tags@);
    let mut list: Vec<Icon> = Vec::new();
    let mut i: usize = 0;
    while i < tags.len()
        invariant
            i <= tags.len(),
            all == tag_views(tags@),
            icon_views(list@) == link_icons(base@, all.take(i as int)),
        decreases tags.len() - i,
    {
        let found = candidate_of(base, &tags[i]);
        proof {
            assert(all.take(i + 1).drop_last() =~= all.take(i as int));
            assert(all.take(i + 1).last() == tags@[i as int]@);
        }
        match found {
            Some(icon) => {
                let ghost before = icon_views(list@);
                let ghost view = icon@;
                list.push(icon);
                assert(icon_views(list@) =~= before.push(view));
            },
            None => {},
        }
        i += 1;
    }
    assert(all.take(tags.len() as int) =~= all);
    let ghost before = icon_views(list@);
    let last = seed(base);
    let ghost view = last@;
    list.push(last);
    assert(icon_views(list@) =~= before.push(view));
    list
}

/// The ranked candidates of a page served from `base` whose link elements are
/// `tags`. The list is never empty, is ordered by priority, and keeps
/// candidates of equal priority in discovery order.
pub fn icons_from_links(base: &str, tags: &Vec<LinkTag>) -> (icons: Vec<Icon>)
    ensures
        icon_views(icons@) == ranked_candidates(base@, tag_views(tags@)),
        icons@.len() >= 1,
        is_sorted(icon_views(icons@)),
        forall|p: u8|
            #[trigger] with_priority(icon_views(icons@), p) == with_priority(
                candidates(base@, tag_views(tags@)),
                p,
            ),
{
    sort_icons(collect_candidates(base, tags))
}

/// The two default candidates for a domain whose page could not be fetched.
pub fn fallback_icons(domain: &str) -> (icons: Vec<Icon>)
    ensures
        icon_views(icons@) == default_icons(domain@),
        icons@.len() == 2,
        is_sorted(icon_views(icons@)),
{
    let mut icons: Vec<Icon> = Vec::new();
    let https = https_origin(domain);
    let http = http_origin(domain);
    icons.push(seed(https.as_str()));
    icons.push(seed(http.as_str()));
    assert(icon_views(icons@) =~= default_icons(domain@));
    icons
}

/// The candidate icons for `domain`, best first.
///
/// With a page, these are the icons that its link elements declare and the
/// default at the page's origin, ranked. Without one, the two defaults. The
/// list is never empty and always ordered by priority.
pub fn resolve_icons(domain: &str, page: Option<&Page>) -> (icons: Vec<Icon>)
    ensures
        icon_views(icons@) == resolved_icons(domain@, page),
        icons@.len() >= 1,
        is_sorted(icon_views(icons@)),
{
    match page {
        Some(p) => {
            let tags = link_tags(p.body.as_str());
            icons_from_links(p.base_url.as_str(), &tags)
        },
        None => fallback_icons(domain),
    }
}

/// The candidate icons for `domain`, best first, and the cookie string of the
/// response that served its page (empty where no page was fetched).
pub fn get_icon_url(domain: &str, page: Option<&Page>) -> (found: (Vec<Icon>, String))
    ensures
        icon_views(found.0@) == resolved_icons(domain@, page),
        found.1@ == resolved_cookies(page),
        found.0@.len() >= 1,
        is_sorted(icon_views(found.0@)),
{
    let icons = resolve_icons(domain, page);
    let cookies = match page {
        Some(p) => cookie_string(&p.set_cookies),
        None => String::new(),
    };
    (icons, cookies)
}

/// The list of candidates is never empty, whatever the page declares: the
/// default is among the candidates, and ranking loses none.
pub proof fn lemma_never_empty(domain: Seq<char>, page: Option<&Page>)
    ensures
        resolved_icons(domain, page).len() >= 1,
{
    match page {
        Some(p) => {
            lemma_ranked_stable(candidates(p.base_url@, document_links(p.body@)));
        },
        None => {},
    }
}

/// The answer is ordered by priority, and stable: the candidates of each
/// priority stand in their discovery order, the default among those of its
/// own priority.
pub proof fn lemma_sorted_and_stable(base: Seq<char>, tags: Seq<LinkTagView>, p: u8)
    ensures
        is_sorted(ranked_candidates(base, tags)),
        ranked_candidates(base, tags).len() == link_icons(base, tags).len() + 1,
        with_priority(ranked_candidates(base, tags), p) == if p == SEED_PRIORITY {
            with_priority(link_icons(base, tags), p).push(seed_icon(base))
        } else {
            with_priority(link_icons(base, tags), p)
        },
{
    broadcast use Seq::lemma_filter_push;

    lemma_ranked_stable(candidates(base, tags));
    assert(with_priority(ranked(candidates(base, tags)), p) == with_priority(
        candidates(base, tags),
        p,
    ));
}

/// No declared icon has the priority of the default.
pub proof fn lemma_link_priorities(base: Seq<char>, tags: Seq<LinkTagView>, i: int)
    requires
        0 <= i < link_icons(base, tags).len(),
    ensures
        link_icons(base, tags)[i].priority != SEED_PRIORITY,
    decreases tags.len(),
{
    if tags.len() > 0 {
        let rest = link_icons(base, tags.drop_last());
        if i < rest.len() {
            lemma_link_priorities(base, tags.drop_last(), i);
        } else {
            let href = resolved_href(tags.last().href.unwrap(), base);
            let size = declared_size(tags.last().sizes);
            lemma_priority_values(href, size.0, size.1);
        }
    }
}

/// The default is always among the ranked candidates, and it is the only
/// candidate of its priority: every declared icon that scores lower stands
/// before it and every one that scores higher stands behind it.
pub proof fn lemma_seed_present(base: Seq<char>, tags: Seq<LinkTagView>)
    ensures
        with_priority(ranked_candidates(base, tags), SEED_PRIORITY) == seq![seed_icon(base)],
        ranked_candidates(base, tags).contains(seed_icon(base)),
{
    let declared = link_icons(base, tags);
    let pred = |x: IconView| x.priority == SEED_PRIORITY;
    assert(declared.all(|y: IconView| !pred(y))) by {
        assert forall|i: int| 0 <= i < declared.len() implies !pred(#[trigger] declared[i]) by {
            lemma_link_priorities(base, tags, i);
        }
    }
    declared.lemma_all_neg_filter_empty(pred);
    lemma_sorted_and_stable(base, tags, SEED_PRIORITY);
    let same = with_priority(ranked_candidates(base, tags), SEED_PRIORITY);
    assert(same =~= seq![seed_icon(base)]);
    assert(same[0] == seed_icon(base));
    assert(same.contains(seed_icon(base)));
    ranked_candidates(base, tags).lemma_filter_contains_rev(pred, seed_icon(base));
}

/// The first candidate of the answer is a best one: no candidate has a lower
/// priority.
pub proof fn lemma_first_is_best(base: Seq<char>, tags: Seq<LinkTagView>, i: int)
    requires
        0 <= i < ranked_candidates(base, tags).len(),
    ensures
        ranked_candidates(base, tags)[0].priority <= ranked_candidates(base, tags)[i].priority,
        ranked_candidates(base, tags)[0].priority <= SEED_PRIORITY,
{
    lemma_ranked_stable(candidates(base, tags));
    lemma_seed_present(base, tags);
    let all = ranked_candidates(base, tags);
    let j = choose|j: int| 0 <= j < all.len() && all[j] == seed_icon(base);
    assert(all[0].priority <= all[j].priority);
}

/// The address of every declared icon on a page served from an origin that
/// begins with `http` begins with `http`.
pub proof fn lemma_link_hrefs(base: Seq<char>, tags: Seq<LinkTagView>, i: int)
    requires
        has_prefix(base, "http"@),
        0 <= i < link_icons(base, tags).len(),
    ensures
        has_prefix(link_icons(base, tags)[i].href, "http"@),
    decreases tags.len(),
{
    if tags.len() > 0 {
        let rest = link_icons(base, tags.drop_last());
        if i < rest.len() {
            lemma_link_hrefs(base, tags.drop_last(), i);
        } else {
            lemma_resolved_is_absolute(tags.last().href.unwrap(), base);
        }
    }
}

/// The address of the default at an origin that begins with `http` begins
/// with `http`.
pub proof fn lemma_seed_href(base: Seq<char>)
    requires
        has_prefix(base, "http"@),
    ensures
        has_prefix(seed_icon(base).href, "http"@),
{
    reveal_strlit("http");
    let href = seed_icon(base).href;
    assert(href.subrange(0, 4) =~= base.subrange(0, 4));
}

/// Every candidate of the answer has an absolute address: where the page, if
/// there is one, was served from an origin that begins with `http`, each
/// address in the answer begins with `http`.
pub proof fn lemma_answers_absolute(domain: Seq<char>, page: Option<&Page>, i: int)
    requires
        page is Some ==> has_prefix(page.unwrap().base_url@, "http"@),
        0 <= i < resolved_icons(domain, page).len(),
    ensures
        has_prefix(resolved_icons(domain, page)[i].href, "http"@),
{
    reveal_strlit("http");
    reveal_strlit("https://");
    reveal_strlit("http://");
    match page {
        Some(p) => {
            let base = p.base_url@;
            let tags = document_links(p.body@);
            let x = ranked_candidates(base, tags)[i];
            assert(ranked_candidates(base, tags).contains(x));
            lemma_ranked_contains(candidates(base, tags), x);
            let j = choose|j: int|
                0 <= j < candidates(base, tags).len() && candidates(base, tags)[j] == x;
            if j < link_icons(base, tags).len() {
                lemma_link_hrefs(base, tags, j);
            } else {
                lemma_seed_href(base);
            }
        },
        None => {
            assert(https_origin_text(domain).subrange(0, 4) =~= "http"@);
            assert(http_origin_text(domain).subrange(0, 4) =~= "http"@);
            lemma_seed_href(https_origin_text(domain));
            lemma_seed_href(http_origin_text(domain));
        },
    }
}

} // verus!
