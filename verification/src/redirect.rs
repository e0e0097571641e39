//! The rules for following a redirect: the policy that bounds a chain, the
//! `Referer` of the next hop, and the headers that must not cross hosts.

use crate::headers::{header_entries, header_remove, is_stripped, lemma_stored_name_of_lower, Entry};
use crate::text::{text_eq, text_view};
use crate::url::{url_without_secrets, Url, UrlView};
use http::HeaderMap;
use vstd::prelude::*;

verus! {

/// What to do with a redirect.
#[derive(Clone, Copy, Debug, PartialEq, Eq, Structural)]
pub enum Action {
    /// Go on to the target.
    Follow,
    /// Hand the redirecting response back as the answer.
    Stop,
    /// Give up: the target was visited before.
    LoopDetected,
    /// Give up: the chain is as long as the policy allows.
    TooManyRedirects,
}

/// How far redirects are followed.
#[derive(Clone, Copy, Debug, PartialEq, Eq, Structural)]
pub enum RedirectPolicy {
    /// Follow up to this many redirects, and never to a URL already visited.
    Limit(usize),
    /// Follow none.
    Never,
}

/// The number of redirects that the default policy follows.
pub const DEFAULT_REDIRECT_LIMIT: usize = 10;

/// The plain form of a list of URLs.
pub open spec fn url_views(urls: Seq<Url>) -> Seq<UrlView> {
    urls.map_values(|url: Url| url@)
}

/// Whether some URL in `previous` is written as `next` is.
pub open spec fn visited(previous: Seq<UrlView>, next: UrlView) -> bool {
    exists|i: int| 0 <= i < previous.len() && (#[trigger] previous[i]).text == next.text
}

impl RedirectPolicy {
    /// The action that this policy takes on a redirect to `next` after the
    /// URLs in `previous` were visited.
    pub open spec fn action(self, next: UrlView, previous: Seq<UrlView>) -> Action {
        match self {
            RedirectPolicy::Never => Action::Stop,
            RedirectPolicy::Limit(max) => if previous.len() >= max {
                Action::TooManyRedirects
            } else if visited(previous, next) {
                Action::LoopDetected
            } else {
                Action::Follow
            },
        }
    }

    /// The policy that follows up to `max` redirects.
    pub fn limited(max: usize) -> (policy: RedirectPolicy)
        ensures
            policy == RedirectPolicy::Limit(max),
    {
        RedirectPolicy::Limit(max)
    }

    /// The policy that follows no redirect.
    pub fn none() -> (policy: RedirectPolicy)
        ensures
            policy == RedirectPolicy::Never,
    {
        RedirectPolicy::Never
    }

    /// Decides on a redirect with the given status to `next`, where
    /// `previous` holds the URLs visited so far, the redirecting one last.
    /// The status plays no part in the decision.
    pub fn check(&self, status: u16, next: &Url, previous: &Vec<Url>) -> (action: Action)
        ensures
            action == self.action(next@, url_views(previous@)),
    {
        match self {
            RedirectPolicy::Never => Action::Stop,
            RedirectPolicy::Limit(max) => {
                if previous.len() >= *max {
                    return Action::TooManyRedirects;
                }
                let mut i: usize = 0;
                while i < previous.len()
                    invariant
                        i <= previous.len(),
                        previous.len() < *max,
                        *self == RedirectPolicy::Limit(*max),
                        forall|k: int| 0 <= k < i ==> (#[trigger] url_views(previous@)[k]).text != next@.text,
                    decreases previous.len() - i,
                {
                    if previous[i].same_as(next) {
                        assert(visited(url_views(previous@), next@)) by {
                            assert(url_views(previous@)[i as int].text == next@.text);
                        }
                        return Action::LoopDetected;
                    }
                    i = i + 1;
                }
                Action::Follow
            },
        }
    }
}

impl Default for RedirectPolicy {
    fn default() -> (policy: RedirectPolicy)
        ensures
            policy == RedirectPolicy::Limit(DEFAULT_REDIRECT_LIMIT),
    {
        RedirectPolicy::Limit(DEFAULT_REDIRECT_LIMIT)
    }
}

/// Whether going from `previous` to `next` leaves a secure scheme for a
/// plain one.
pub open spec fn is_downgrade(next: UrlView, previous: UrlView) -> bool {
    next.scheme == "http"@ && previous.scheme == "https"@
}

/// The `Referer` to send to `next` when coming from `previous`: none on a
/// downgrade, else `previous` without user name, password and fragment.
pub open spec fn referer_for(next: UrlView, previous: UrlView) -> Option<Seq<char>> {
    if is_downgrade(next, previous) {
        None
    } else {
        url_without_secrets(previous.text)
    }
}

/// Computes the `Referer` for the hop from `previous` to `next`.
pub fn make_referer(next: &Url, previous: &Url) -> (referer: Option<String>)
    ensures
        text_view(referer) == referer_for(next@, previous@),
{
    if text_eq(next.scheme(), "http") && text_eq(previous.scheme(), "https") {
        return None;
    }
    previous.without_secrets()
}

/// Whether a request to `next` goes to another origin than one to
/// `previous`: the host, the scheme or the port differs.
pub open spec fn crosses_origin(next: UrlView, previous: UrlView) -> bool {
    next.host != previous.host || next.scheme != previous.scheme || next.port != previous.port
}

/// The names of the headers that are not carried to another origin.
pub open spec fn sensitive_names() -> Set<Seq<char>> {
    set!["authorization"@, "cookie"@, "cookie2"@, "proxy-authorization"@, "www-authenticate"@]
}

/// What the headers `before` become on the hop to `next`: stripped of the
/// sensitive headers where `previous` ends in a URL of another origin,
/// unchanged where it ends in one of the same origin or is empty.
pub open spec fn sensitive_removed(after: Seq<Entry>, before: Seq<Entry>, next: UrlView, previous: Seq<UrlView>) -> bool {
    if previous.len() > 0 && crosses_origin(next, previous.last()) {
        is_stripped(after, before, sensitive_names())
    } else {
        after == before
    }
}

fn same_host(a: Option<&str>, b: Option<&str>) -> (same: bool)
    ensures
        same == (match (a, b) {
            (Some(x), Some(y)) => x@ == y@,
            (None, None) => true,
            _ => false,
        }),
{
    match (a, b) {
        (Some(x), Some(y)) => text_eq(x, y),
        (None, None) => true,
        _ => false,
    }
}

/// Removes the headers that must not reach another origin, where the hop
/// from the last URL of `previous` to `next` crosses origins.
pub fn remove_sensitive_headers(headers: &mut HeaderMap, next: &Url, previous: &Vec<Url>)
    ensures
        sensitive_removed(header_entries(*final(headers)), header_entries(*old(headers)), next@, url_views(previous@)),
        header_entries(*final(headers)).len() <= header_entries(*old(headers)).len(),
{
    if previous.len() == 0 {
        return;
    }
    let last = &previous[previous.len() - 1];
    let cross = !same_host(next.host_str(), last.host_str()) || !text_eq(next.scheme(), last.scheme())
        || next.port_or_known_default() != last.port_or_known_default();
    if cross {
        proof {
            reveal_strlit("authorization");
            reveal_strlit("cookie");
            reveal_strlit("cookie2");
            reveal_strlit("proxy-authorization");
            reveal_strlit("www-authenticate");
            lemma_stored_name_of_lower("authorization"@);
            lemma_stored_name_of_lower("cookie"@);
            lemma_stored_name_of_lower("cookie2"@);
            lemma_stored_name_of_lower("proxy-authorization"@);
            lemma_stored_name_of_lower("www-authenticate"@);
        }
        header_remove(headers, "authorization");
        header_remove(headers, "cookie");
        header_remove(headers, "cookie2");
        header_remove(headers, "proxy-authorization");
        header_remove(headers, "www-authenticate");
    }
}

} // verus!
