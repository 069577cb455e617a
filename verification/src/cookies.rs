//! Gathering the cookies that a response set into one string.

use vstd::prelude::*;
use vstd::string::*;
use cookie::Cookie;

verus! {

/// Name and value of the cookie that the `Set-Cookie` header `header` sets, as
/// the `cookie` crate parses it; `None` for a header that it rejects.
pub uninterp spec fn cookie_pair(header: Seq<char>) -> Option<(Seq<char>, Seq<char>)>;

/// Name and value of an optional cookie, as characters.
pub open spec fn pair_view(pair: Option<(String, String)>) -> Option<(Seq<char>, Seq<char>)> {
    match pair {
        Some((name, value)) => Some((name@, value@)),
        None => None,
    }
}

/// What one cookie adds to the cookie string: `name=value; `, and nothing for
/// a header that did not parse.
pub open spec fn pair_text(pair: Option<(Seq<char>, Seq<char>)>) -> Seq<char> {
    match pair {
        Some((name, value)) => name + "="@ + value + "; "@,
        None => Seq::empty(),
    }
}

/// The cookie string of a list of `Set-Cookie` headers: the text of each
/// header's cookie, in the order of the headers.
pub open spec fn cookie_text(headers: Seq<String>) -> Seq<char>
    decreases headers.len(),
{
    if headers.len() == 0 {
        Seq::empty()
    } else {
        cookie_text(headers.drop_last()) + pair_text(cookie_pair(headers.last()@))
    }
}

/// Trusted: parses `header` with `cookie::Cookie::parse` and copies out what
/// `name` and `value` of the cookie return. The contract only gives the
/// outcome a name.
#[verifier::external_body]
pub(crate) fn parse_cookie(header: &str) -> (pair: Option<(String, String)>)
    ensures
        pair_view(pair) == cookie_pair(header@),
{
    match Cookie::parse(header) {
        Ok(cookie) => Some((cookie.name().to_string(), cookie.value().to_string())),
        Err(_) => None,
    }
}

/// Appends to `cookies` what one parsed header adds to a cookie string.
pub fn push_cookie(cookies: &mut String, pair: &Option<(String, String)>)
    ensures
        final(cookies)@ == old(cookies)@ + pair_text(pair_view(*pair)),
{
    match pair {
        Some((name, value)) => {
            cookies.append(name.as_str());
            cookies.append("=");
            cookies.append(value.as_str());
            cookies.append("; ");
            assert(cookies@ =~= old(cookies)@ + (name@ + "="@ + value@ + "; "@));
        },
        None => {
            assert(cookies@ =~= old(cookies)@ + Seq::<char>::empty());
        },
    }
}

/// The cookie string of the `Set-Cookie` headers of a response. Headers that
/// do not parse as a cookie are passed over.
pub fn cookie_string(headers: &Vec<String>) -> (cookies: String)
    ensures
        cookies@ == cookie_text(headers@),
{
    let mut cookies = String::new();
    let mut i: usize = 0;
    while i < headers.len()
        invariant
            i <= headers.len(),
            cookies@ == cookie_text(headers@.take(i as int)),
        decreases headers.len() - i,
    {
        let pair = parse_cookie(headers[i].as_str());
        proof {
            assert(headers@.take(i + 1).drop_last() =~= headers@.take(i as int));
            assert(headers@.take(i + 1).last() == headers@[i as int]);
        }
        push_cookie(&mut cookies, &pair);
        i += 1;
    }
    assert(headers@.take(headers.len() as int) =~= headers@);
    cookies
}

/// No headers give an empty cookie string, and each further header adds its
/// own cookie's text behind what the earlier ones gave.
pub proof fn lemma_cookie_text_push(headers: Seq<String>, header: String)
    ensures
        cookie_text(Seq::<String>::empty()) == Seq::<char>::empty(),
        cookie_text(headers.push(header)) == cookie_text(headers) + pair_text(
            cookie_pair(header@),
        ),
{
    assert(headers.push(header).drop_last() =~= headers);
}

} // verus!
