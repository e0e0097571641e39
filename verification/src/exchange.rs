//! One logical request between its hops: what the rules make of a
//! response, and what the next hop looks like where they follow a redirect.

use crate::body::{Body, BodyView};
use crate::buffer::buffer_bytes;
use crate::cookie::{attach_cookies, cookie_line, cookies_attached, owes_cookie_header, Cookie};
use crate::error::{Error, ErrorView, Kind};
use crate::headers::{first_named, has_room, header_clone, header_entries, header_get, header_remove, header_set, is_header_name, is_header_value, is_stripped, lemma_stored_name_of_lower, values_named, Entry};
use crate::redirect::{crosses_origin, is_downgrade, make_referer, referer_for, remove_sensitive_headers, sensitive_names, url_views, Action, RedirectPolicy};
use crate::text::utf8_text;
use crate::url::{is_request_target, option_view, url_joined, url_without_secrets, Url, UrlView};
use bytes::Bytes;
use http::HeaderMap;
use vstd::prelude::*;
use vstd::utf8::encode_utf8;

verus! {

/// The method of a request.
#[derive(Clone, Copy, Debug, PartialEq, Eq, Structural)]
pub enum Method {
    Get,
    Head,
    Post,
    Put,
    Patch,
    Delete,
    Options,
    Trace,
    Connect,
}

impl Method {
    /// The method as it is written on the wire.
    pub fn as_str(&self) -> (name: &'static str)
        ensures
            name@ == match *self {
                Method::Get => "GET"@,
                Method::Head => "HEAD"@,
                Method::Post => "POST"@,
                Method::Put => "PUT"@,
                Method::Patch => "PATCH"@,
                Method::Delete => "DELETE"@,
                Method::Options => "OPTIONS"@,
                Method::Trace => "TRACE"@,
                Method::Connect => "CONNECT"@,
            },
    {
        match self {
            Method::Get => "GET",
            Method::Head => "HEAD",
            Method::Post => "POST",
            Method::Put => "PUT",
            Method::Patch => "PATCH",
            Method::Delete => "DELETE",
            Method::Options => "OPTIONS",
            Method::Trace => "TRACE",
            Method::Connect => "CONNECT",
        }
    }
}

/// What of a request body can be sent again on a later hop.
#[derive(Debug)]
pub enum Replay {
    /// The request has no body.
    Nothing,
    /// The body was a buffer, and this is a handle on its bytes.
    Snapshot(Bytes),
    /// The body was a stream, which the first hop consumes.
    Spent,
}

/// A `Replay` as plain data.
pub enum ReplayView {
    Nothing,
    Snapshot(Seq<u8>),
    Spent,
}

impl View for Replay {
    type V = ReplayView;

    open spec fn view(&self) -> ReplayView {
        match *self {
            Replay::Nothing => ReplayView::Nothing,
            Replay::Snapshot(bytes) => ReplayView::Snapshot(buffer_bytes(bytes)),
            Replay::Spent => ReplayView::Spent,
        }
    }
}

/// The plain form of an optional body.
pub open spec fn body_view(body: Option<Body>) -> Option<BodyView> {
    match body {
        Some(body) => Some(body@),
        None => None,
    }
}

/// What a body leaves for later hops once the first hop has taken it.
pub open spec fn replay_of(body: Option<BodyView>) -> ReplayView {
    match body {
        None => ReplayView::Nothing,
        Some(BodyView::Reusable(bytes)) => ReplayView::Snapshot(bytes),
        Some(BodyView::Streaming(_)) => ReplayView::Spent,
    }
}

/// The body of a later hop: the snapshot as a buffer, or none.
pub open spec fn replayed(replay: ReplayView) -> Option<BodyView> {
    match replay {
        ReplayView::Snapshot(bytes) => Some(BodyView::Reusable(bytes)),
        _ => None,
    }
}

/// Whether the status asks to repeat the request elsewhere as a plain `GET`.
pub open spec fn resets_request(status: u16) -> bool {
    status == 301 || status == 302 || status == 303
}

/// Whether the status asks to repeat the request elsewhere as it is.
pub open spec fn keeps_request(status: u16) -> bool {
    status == 307 || status == 308
}

/// Whether a response with this status can be followed at all: always where
/// the request is reset, and where it is kept only if its body can be sent
/// again.
pub open spec fn is_eligible(status: u16, replay: ReplayView) -> bool {
    resets_request(status) || (keeps_request(status) && !(replay is Spent))
}

/// The URL that the `Location` header of a response points to, seen from
/// `url`: nothing where the header is missing, is no text, does not resolve,
/// or resolves to what cannot be written as a request target.
pub open spec fn location_target(url: UrlView, response: Seq<Entry>) -> Option<UrlView> {
    match first_named(response, "location"@) {
        None => None,
        Some(bytes) => if !vstd::utf8::valid_utf8(bytes) {
            None
        } else {
            match url_joined(url.text, vstd::utf8::decode_utf8(bytes)) {
                None => None,
                Some(target) => if is_request_target(target.text) {
                    Some(target)
                } else {
                    None
                },
            }
        },
    }
}

/// The method of the next hop.
pub open spec fn next_method(method: Method, status: u16) -> Method {
    if resets_request(status) && method != Method::Get && method != Method::Head {
        Method::Get
    } else {
        method
    }
}

/// What can still be sent again after the next hop.
pub open spec fn next_replay(replay: ReplayView, status: u16) -> ReplayView {
    if resets_request(status) {
        ReplayView::Nothing
    } else {
        replay
    }
}

/// The names of the headers that describe a body and go when the body goes.
pub open spec fn content_names() -> Set<Seq<char>> {
    set!["transfer-encoding"@, "content-encoding"@, "content-type"@, "content-length"@]
}

/// The values under `name` on the next hop, where the request had the
/// headers `before`, the response had `status`, `referer` is the `Referer`
/// that the map took (if any), and `crosses` says whether the hop leaves the
/// origin.
pub open spec fn next_values(
    before: Seq<Entry>,
    status: u16,
    referer: Option<Seq<char>>,
    crosses: bool,
    name: Seq<char>,
) -> Seq<Seq<u8>> {
    if crosses && sensitive_names().contains(name) {
        Seq::empty()
    } else if name == "referer"@ && referer is Some {
        seq![encode_utf8(referer->Some_0)]
    } else if resets_request(status) && content_names().contains(name) {
        Seq::empty()
    } else {
        values_named(before, name)
    }
}

/// Whether `after` holds, under every name, the values of the next hop.
pub open spec fn is_next_headers(
    after: Seq<Entry>,
    before: Seq<Entry>,
    status: u16,
    referer: Option<Seq<char>>,
    crosses: bool,
) -> bool {
    forall|name: Seq<char>| #[trigger] values_named(after, name) == next_values(before, status, referer, crosses, name)
}

/// The `Referer` that the hop from `url` to `target` carries: the one that
/// the rules give where it can be the value of a header, and none where it
/// cannot or the rules give none.
pub open spec fn referer_sent(target: UrlView, url: UrlView) -> Option<Seq<char>> {
    match referer_for(target, url) {
        Some(text) => if is_header_value(encode_utf8(text)) {
            Some(text)
        } else {
            None
        },
        None => None,
    }
}

/// Whether `after` are the headers of the hop to `target` after a response
/// with `status` to a request to `url` with the headers `before`: the
/// headers of the rules with the `Referer` that the hop carries. Only where
/// the map that holds `before` is not sure to have room may the `Referer` be
/// missing.
pub open spec fn follows_rules(after: Seq<Entry>, before: Seq<Entry>, status: u16, target: UrlView, url: UrlView) -> bool {
    ||| is_next_headers(after, before, status, referer_sent(target, url), crosses_origin(target, url))
    ||| !has_room(before) && is_next_headers(after, before, status, None, crosses_origin(target, url))
}

/// The state of one logical request between two hops.
#[derive(Debug)]
pub struct Exchange {
    method: Method,
    url: Url,
    headers: HeaderMap,
    replay: Replay,
    visited: Vec<Url>,
    policy: RedirectPolicy,
}

/// An `Exchange` as plain data.
pub struct ExchangeView {
    /// The method of the hop that is under way.
    pub method: Method,
    /// The URL of the hop that is under way.
    pub url: UrlView,
    /// The request headers of the hop that is under way.
    pub headers: Seq<Entry>,
    /// What of the body can be sent again.
    pub replay: ReplayView,
    /// The URLs of the hops that were answered with a followed redirect.
    pub visited: Seq<UrlView>,
    /// The policy that bounds the chain.
    pub policy: RedirectPolicy,
}

impl View for Exchange {
    type V = ExchangeView;

    closed spec fn view(&self) -> ExchangeView {
        ExchangeView {
            method: self.method,
            url: self.url@,
            headers: header_entries(self.headers),
            replay: self.replay@,
            visited: url_views(self.visited@),
            policy: self.policy,
        }
    }
}

/// What to make of a response.
#[derive(Debug)]
pub enum Verdict {
    /// The request goes on to another URL; the exchange holds the next hop.
    Follow,
    /// The response is the answer.
    Done,
    /// The request has failed.
    Failed(Error),
}

/// What the rules make of a response, as plain data.
pub enum Decision {
    /// Go on to this URL.
    Follow(UrlView),
    /// The response is the answer.
    Done,
    /// Give up with an error of this kind that carries the current URL.
    Fail(Kind),
}

impl ExchangeView {
    /// What the rules make of a response with the given status that points
    /// to the given target, if to any.
    pub open spec fn decision_for(self, status: u16, target: Option<UrlView>) -> Decision {
        if !is_eligible(status, self.replay) {
            Decision::Done
        } else {
            match target {
                None => Decision::Done,
                Some(target) => match self.policy.action(target, self.visited.push(self.url)) {
                    Action::Follow => Decision::Follow(target),
                    Action::Stop => Decision::Done,
                    Action::LoopDetected => Decision::Fail(Kind::LoopDetected),
                    Action::TooManyRedirects => Decision::Fail(Kind::TooManyRedirects),
                },
            }
        }
    }

    /// What the rules make of a response with the given status and headers.
    pub open spec fn decision(self, status: u16, response: Seq<Entry>) -> Decision {
        self.decision_for(status, location_target(self.url, response))
    }

    /// Whether `verdict` and the state `after` are what this exchange makes
    /// of a decision on a response with `status`.
    pub open spec fn decided(self, status: u16, decision: Decision, verdict: Verdict, after: ExchangeView) -> bool {
        match decision {
            Decision::Follow(target) => {
                &&& verdict is Follow
                &&& after.url == target
                &&& after.method == next_method(self.method, status)
                &&& after.replay == next_replay(self.replay, status)
                &&& after.visited == self.visited.push(self.url)
                &&& after.policy == self.policy
                &&& follows_rules(after.headers, self.headers, status, target, self.url)
                &&& after.headers.len() <= self.headers.len() + 1
            },
            Decision::Done => verdict is Done && after == self,
            Decision::Fail(kind) => {
                &&& verdict matches Verdict::Failed(error)
                &&& error@ == (ErrorView { kind, url: Some(self.url.text), cause: Seq::<char>::empty() })
                &&& after == self
            },
        }
    }
}

/// A request as the caller builds it.
#[derive(Debug)]
pub struct Request {
    pub method: Method,
    pub url: Url,
    pub headers: HeaderMap,
    pub body: Option<Body>,
}

impl Request {
    /// A request without headers and without a body.
    pub fn new(method: Method, url: Url) -> (request: Request)
        ensures
            request.method == method,
            request.url == url,
            header_entries(request.headers) == Seq::<Entry>::empty(),
            request.body is None,
    {
        Request { method, url, headers: HeaderMap::new(), body: None }
    }
}

/// What is handed to the transport for one hop.
#[derive(Debug)]
pub struct Submission {
    pub method: Method,
    pub url: Url,
    pub headers: HeaderMap,
    pub body: Option<Body>,
}

/// A `Submission` as plain data.
pub struct SubmissionView {
    pub method: Method,
    pub url: UrlView,
    pub headers: Seq<Entry>,
    pub body: Option<BodyView>,
}

impl View for Submission {
    type V = SubmissionView;

    open spec fn view(&self) -> SubmissionView {
        SubmissionView {
            method: self.method,
            url: self.url@,
            headers: header_entries(self.headers),
            body: body_view(self.body),
        }
    }
}

/// Finds the target of a redirect in the headers of a response.
fn locate(url: &Url, response: &HeaderMap) -> (target: Option<Url>)
    ensures
        option_view(target) == location_target(url@, header_entries(*response)),
{
    proof {
        reveal_strlit("location");
        lemma_stored_name_of_lower("location"@);
    }
    let value = match header_get(response, "location") {
        Some(value) => value,
        None => {
            return None;
        },
    };
    let text = match utf8_text(value.as_slice()) {
        Ok(text) => text,
        Err(_) => {
            return None;
        },
    };
    let target = match url.join(text) {
        Some(target) => target,
        None => {
            return None;
        },
    };
    if target.is_request_target() {
        Some(target)
    } else {
        None
    }
}

/// Takes the headers that describe a body out of the map.
fn remove_content_headers(headers: &mut HeaderMap)
    ensures
        is_stripped(header_entries(*final(headers)), header_entries(*old(headers)), content_names()),
        header_entries(*final(headers)).len() <= header_entries(*old(headers)).len(),
{
    proof {
        reveal_strlit("transfer-encoding");
        reveal_strlit("content-encoding");
        reveal_strlit("content-type");
        reveal_strlit("content-length");
        lemma_stored_name_of_lower("transfer-encoding"@);
        lemma_stored_name_of_lower("content-encoding"@);
        lemma_stored_name_of_lower("content-type"@);
        lemma_stored_name_of_lower("content-length"@);
    }
    header_remove(headers, "transfer-encoding");
    header_remove(headers, "content-encoding");
    header_remove(headers, "content-type");
    header_remove(headers, "content-length");
}

impl Exchange {
    /// Opens an exchange for a request under a policy. The body is split:
    /// the first hop submits it, and what can be sent again stays behind.
    pub fn start(request: Request, policy: RedirectPolicy) -> (opened: (Exchange, Submission))
        ensures
            opened.0@ == (ExchangeView {
                method: request.method,
                url: request.url@,
                headers: header_entries(request.headers),
                replay: replay_of(body_view(request.body)),
                visited: Seq::<UrlView>::empty(),
                policy,
            }),
            opened.1@ == (SubmissionView {
                method: request.method,
                url: request.url@,
                headers: header_entries(request.headers),
                body: body_view(request.body),
            }),
    {
        let Request { method, url, headers, body } = request;
        let (replay, first) = match body {
            Some(body) => {
                let (snapshot, body) = body.try_reuse();
                match snapshot {
                    Some(bytes) => (Replay::Snapshot(bytes), Some(body)),
                    None => (Replay::Spent, Some(body)),
                }
            },
            None => (Replay::Nothing, None),
        };
        let submission = Submission { method, url: url.duplicate(), headers: header_clone(&headers), body: first };
        let visited: Vec<Url> = Vec::new();
        assert(url_views(visited@) =~= Seq::<UrlView>::empty());
        (Exchange { method, url, headers, replay, visited, policy }, submission)
    }

    /// The submission for the hop that the exchange holds: its method, URL
    /// and headers, and the snapshot of the body where there is one.
    pub fn submission(&self) -> (submission: Submission)
        ensures
            submission@ == (SubmissionView {
                method: self@.method,
                url: self@.url,
                headers: self@.headers,
                body: replayed(self@.replay),
            }),
    {
        let body = match &self.replay {
            Replay::Snapshot(bytes) => Some(Body::reusable(bytes.clone())),
            _ => None,
        };
        Submission { method: self.method, url: self.url.duplicate(), headers: header_clone(&self.headers), body }
    }

    /// Sets the `Cookie` header of the hop that the exchange holds to send
    /// the given cookies, and leaves the rest of the exchange as it is; with
    /// no cookie, the headers are left alone too. Returns whether a header
    /// was set. None is set for a line that holds a byte that no header value
    /// may hold; any other line is set unless the map has no room.
    pub fn attach_cookies(&mut self, cookies: &Vec<Cookie>) -> (taken: bool)
        ensures
            cookies_attached(final(self)@.headers, old(self)@.headers, cookies@, taken),
            owes_cookie_header(old(self)@.headers, cookies@) ==> taken,
            taken ==> cookies@.len() > 0 && is_header_value(cookie_line(cookies@)),
            final(self)@ == (ExchangeView { headers: final(self)@.headers, ..old(self)@ }),
    {
        attach_cookies(&mut self.headers, cookies)
    }

    /// The URL of the hop that is under way.
    pub fn url(&self) -> (url: &Url)
        ensures
            url@ == self@.url,
    {
        &self.url
    }

    /// Whether a response with this status can be followed at all.
    pub fn is_eligible(&self, status: u16) -> (eligible: bool)
        ensures
            eligible == is_eligible(status, self@.replay),
    {
        let resets = status == 301 || status == 302 || status == 303;
        let keeps = status == 307 || status == 308;
        resets || (keeps && !matches!(self.replay, Replay::Spent))
    }

    /// Applies the redirect rules to a response. On `Follow` the exchange
    /// moves on to the next hop: the URL is the target, the current URL joins
    /// the visited ones, method, body and headers are adjusted. Otherwise the
    /// exchange stays as it is.
    ///
    /// The `Referer` of the next hop is set as the rules say unless the map
    /// refuses the value, in which case the headers are as if there were no
    /// `Referer` to set.
    pub fn decide(&mut self, status: u16, response: &HeaderMap) -> (verdict: Verdict)
        ensures
            keeps_request(status) && old(self)@.replay is Spent ==> verdict is Done,
            old(self)@.decided(status, old(self)@.decision(status, header_entries(*response)), verdict, final(self)@),
    {
        let target = if self.is_eligible(status) {
            locate(&self.url, response)
        } else {
            None
        };
        self.redirect_to(status, target)
    }

    /// Applies the redirect rules to a response with the given status whose
    /// `Location` header was found to point to `target`, or to nothing that
    /// can be followed.
    pub fn redirect_to(&mut self, status: u16, target: Option<Url>) -> (verdict: Verdict)
        ensures
            keeps_request(status) && old(self)@.replay is Spent ==> verdict is Done,
            old(self)@.decided(status, old(self)@.decision_for(status, option_view(target)), verdict, final(self)@),
    {
        if !self.is_eligible(status) {
            return Verdict::Done;
        }
        let target = match target {
            Some(target) => target,
            None => {
                return Verdict::Done;
            },
        };
        let resets = status == 301 || status == 302 || status == 303;
        let ghost before = self@;
        self.visited.push(self.url.duplicate());
        assert(url_views(self.visited@) =~= before.visited.push(before.url));
        let action = self.policy.check(status, &target, &self.visited);
        match action {
            Action::Follow => {
                if resets {
                    self.replay = Replay::Nothing;
                    remove_content_headers(&mut self.headers);
                    match self.method {
                        Method::Get | Method::Head => {},
                        _ => {
                            self.method = Method::Get;
                        },
                    }
                }
                let referer = make_referer(&target, &self.url);
                let stored = match &referer {
                    Some(text) => {
                        proof {
                            reveal_strlit("referer");
                            lemma_stored_name_of_lower("referer"@);
                            assert(is_header_name("referer"@));
                        }
                        header_set(&mut self.headers, "referer", text.as_str().as_bytes())
                    },
                    None => false,
                };
                remove_sensitive_headers(&mut self.headers, &target, &self.visited);
                self.url = target;
                Verdict::Follow
            },
            Action::Stop => {
                self.visited.pop();
                assert(url_views(self.visited@) =~= before.visited);
                Verdict::Done
            },
            Action::LoopDetected => {
                self.visited.pop();
                assert(url_views(self.visited@) =~= before.visited);
                Verdict::Failed(Error::redirect(Kind::LoopDetected, self.url.as_str().to_owned()))
            },
            Action::TooManyRedirects => {
                self.visited.pop();
                assert(url_views(self.visited@) =~= before.visited);
                Verdict::Failed(Error::redirect(Kind::TooManyRedirects, self.url.as_str().to_owned()))
            },
        }
    }
}

/// `referer` is neither a header that describes a body nor one that stays
/// within an origin.
pub proof fn lemma_names_apart()
    ensures
        !sensitive_names().contains("referer"@),
        !content_names().contains("referer"@),
{
    reveal_strlit("referer");
    reveal_strlit("authorization");
    reveal_strlit("cookie");
    reveal_strlit("cookie2");
    reveal_strlit("proxy-authorization");
    reveal_strlit("www-authenticate");
    reveal_strlit("transfer-encoding");
    reveal_strlit("content-encoding");
    reveal_strlit("content-type");
    reveal_strlit("content-length");
    assert("referer"@[0] == 'r');
}

/// A response to a request whose body was a stream is final where its
/// status asks to repeat the request as it is: there is nothing left to
/// repeat it with.
pub proof fn lemma_streaming_body_is_not_replayed(state: ExchangeView, status: u16, response: Seq<Entry>)
    requires
        keeps_request(status),
        state.replay is Spent,
    ensures
        state.decision(status, response) is Done,
{
}

/// A redirect is followed only while the visited URLs, the current one
/// counted in, are fewer than the limit of the policy. As each followed
/// redirect adds one visited URL, a chain of redirects ends.
pub proof fn lemma_follow_is_bounded(state: ExchangeView, status: u16, response: Seq<Entry>)
    requires
        state.decision(status, response) is Follow,
    ensures
        state.policy matches RedirectPolicy::Limit(max) && state.visited.len() + 1 < max,
{
}

/// A redirect that leads back to the URL of the request is a loop, unless
/// the chain is already as long as the policy allows or the policy follows
/// nothing.
pub proof fn lemma_redirect_to_self_is_a_loop(state: ExchangeView, status: u16, response: Seq<Entry>, max: usize)
    requires
        is_eligible(status, state.replay),
        location_target(state.url, response) matches Some(target) && target.text == state.url.text,
        state.policy == RedirectPolicy::Limit(max),
        state.visited.len() + 1 < max,
    ensures
        state.decision(status, response) == Decision::Fail(Kind::LoopDetected),
{
    let previous = state.visited.push(state.url);
    assert(previous[state.visited.len() as int].text == state.url.text);
}

/// On the way from a secure to a plain scheme no `Referer` is set: the
/// next hop has the `Referer` values that the request had before, whatever
/// the status and whether or not the hop leaves the origin.
pub proof fn lemma_no_referer_on_downgrade(after: Seq<Entry>, before: Seq<Entry>, status: u16, target: UrlView, url: UrlView)
    requires
        is_downgrade(target, url),
        follows_rules(after, before, status, target, url),
    ensures
        values_named(after, "referer"@) == values_named(before, "referer"@),
{
    lemma_names_apart();
}

/// On any other way the `Referer` of the next hop is the URL that the
/// request came from, without user name, password and fragment, as its only
/// value. This holds for a request with fewer headers than a map is sure to
/// have room for, and a URL whose written form can be the value of a header.
pub proof fn lemma_referer_without_downgrade(after: Seq<Entry>, before: Seq<Entry>, status: u16, target: UrlView, url: UrlView)
    requires
        !is_downgrade(target, url),
        url_without_secrets(url.text) matches Some(text) && is_header_value(encode_utf8(text)),
        has_room(before),
        follows_rules(after, before, status, target, url),
    ensures
        values_named(after, "referer"@) == seq![encode_utf8(url_without_secrets(url.text)->Some_0)],
{
    lemma_names_apart();
}

} // verus!
