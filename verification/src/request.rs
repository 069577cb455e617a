//! What a request for a home page carries, as plain values.

use vstd::prelude::*;

verus! {

/// Seconds after which an attempt to fetch a page counts as failed.
pub const TIMEOUT_SECS: u64 = 5;

/// Names and values of the headers that every request carries, in order: a
/// desktop browser's user agent, English as the language, no caching, and a
/// preference for HTML.
pub open spec fn default_header_texts() -> Seq<(Seq<char>, Seq<char>)> {
    seq![
        (
            "user-agent"@,
            "Mozilla/5.0 (Windows NT 10.0; Win64; x64) AppleWebKit/537.36 (KHTML, like Gecko) Chrome/58.0.3029.110 Safari/537.36 Edge/16.16299"@,
        ),
        ("accept-language"@, "en-US,en;q=0.8"@),
        ("cache-control"@, "no-cache"@),
        ("pragma"@, "no-cache"@),
        (
            "accept"@,
            "text/html,application/xhtml+xml,application/xml;q=0.9,image/webp,image/apng,*/*;q=0.8"@,
        ),
    ]
}

/// Names and values of a list of headers, as characters.
pub open spec fn header_texts(headers: Seq<(&'static str, &'static str)>) -> Seq<
    (Seq<char>, Seq<char>),
> {
    headers.map_values(|h: (&'static str, &'static str)| (h.0@, h.1@))
}

/// The headers that every request carries.
pub fn default_headers() -> (headers: Vec<(&'static str, &'static str)>)
    ensures
        header_texts(headers@) == default_header_texts(),
{
    let mut headers: Vec<(&'static str, &'static str)> = Vec::new();
    headers.push(
        (
            "user-agent",
            "Mozilla/5.0 (Windows NT 10.0; Win64; x64) AppleWebKit/537.36 (KHTML, like Gecko) Chrome/58.0.3029.110 Safari/537.36 Edge/16.16299",
        ),
    );
    headers.push(("accept-language", "en-US,en;q=0.8"));
    headers.push(("cache-control", "no-cache"));
    headers.push(("pragma", "no-cache"));
    headers.push(
        (
            "accept",
            "text/html,application/xhtml+xml,application/xml;q=0.9,image/webp,image/apng,*/*;q=0.8",
        ),
    );
    assert(header_texts(headers@) =~= default_header_texts());
    headers
}

} // verus!
