//! A client: the defaults that its requests share, and one logical request
//! from its first submission to its final answer.
//!
//! The caller owns the transport. It asks [`Client::begin`] what to submit,
//! submits it, and hands the status and headers of each response to
//! [`Client::advance`], which answers with the next submission, with the
//! verdict that the response is final, or with an error.

use crate::cookie::{attach_cookies, cookie_line, cookies_attached, owes_cookie_header, pairs_in, pairs_of, readable_views, response_cookies, stored_cookies, Cookie, CookieStore, Pair, SimpleCookieStore};
use crate::error::{Error, ErrorView, Kind};
use crate::exchange::{body_view, follows_rules, next_method, next_replay, keeps_request, replay_of, replayed, Decision, Exchange, ExchangeView, Method, Request, Submission, SubmissionView, Verdict};
use crate::headers::{entries_of, has_name, have_room, header_entries, header_get, header_list, header_set, is_header_name, is_header_value, is_lower, lemma_printable_text_is_value, lemma_stored_name_of_lower, values_named, Entry};
use crate::redirect::{RedirectPolicy, DEFAULT_REDIRECT_LIMIT};
use crate::url::{url_parsed, Url, UrlView};
use http::HeaderMap;
use vstd::prelude::*;
use vstd::utf8::encode_utf8;

verus! {

/// The values under one name after default headers were merged in: what
/// the request had where it had any; else the first default value where
/// there is one, or nothing where the merge was cut short; else nothing.
pub open spec fn merged_values(before: Seq<Seq<u8>>, defaults: Seq<Seq<u8>>, after: Seq<Seq<u8>>, complete: bool) -> bool {
    if before.len() > 0 {
        after == before
    } else if defaults.len() > 0 {
        after == seq![defaults.first()] || (!complete && after.len() == 0)
    } else {
        after.len() == 0
    }
}

/// Whether `after` is `before` with the default headers merged in.
pub open spec fn is_merged(after: Seq<Entry>, before: Seq<Entry>, defaults: Seq<Entry>, complete: bool) -> bool {
    forall|name: Seq<char>|
        merged_values(values_named(before, name), values_named(defaults, name), #[trigger] values_named(after, name), complete)
}

/// The values under a name among the first headers of a list are the first
/// of the values under that name in a longer part of the list.
pub proof fn lemma_values_grow(entries: Seq<Entry>, i: int, j: int, name: Seq<char>)
    requires
        0 <= i <= j <= entries.len(),
    ensures
        values_named(entries.take(i), name).len() <= values_named(entries.take(j), name).len(),
        values_named(entries.take(i), name).len() > 0 ==> values_named(entries.take(j), name).first() == values_named(
            entries.take(i),
            name,
        ).first(),
    decreases j - i,
{
    if i < j {
        lemma_values_grow(entries, i, j - 1, name);
        assert(entries.take(j).drop_last() =~= entries.take(j - 1));
    }
}

/// Whether a merge was cut short at default `k`: the defaults before it are
/// merged in, and its own name, which the request lacks, got no value.
pub open spec fn is_cut_short(after: Seq<Entry>, before: Seq<Entry>, defaults: Seq<Entry>, k: int) -> bool {
    &&& 0 <= k < defaults.len()
    &&& is_merged(after, before, defaults.take(k), true)
    &&& !has_name(after, defaults[k].0)
}

/// Merges default headers into the headers of a request, default by default
/// in the order in which their map is walked: a name that the request has
/// keeps its values, and a name that only the defaults have gets their first
/// value. Returns whether the merge is complete. It is cut short only where
/// the map has no room for the value of a name that the request lacks; the
/// defaults before that one are merged in, the others are not. So a merge is
/// always complete where it has nothing to add, and where the map is sure to
/// have room for all the defaults.
pub fn merge_default_headers(headers: &mut HeaderMap, defaults: &HeaderMap) -> (complete: bool)
    ensures
        is_merged(header_entries(*final(headers)), header_entries(*old(headers)), header_entries(*defaults), complete),
        !complete ==> exists|k: int| is_cut_short(header_entries(*final(headers)), header_entries(*old(headers)), header_entries(*defaults), k),
        have_room(header_entries(*old(headers)), header_entries(*defaults)) ==> complete,
        header_entries(*final(headers)).len() <= header_entries(*old(headers)).len() + header_entries(*defaults).len(),
{
    let list = header_list(defaults);
    let ghost before = header_entries(*headers);
    let ghost all = header_entries(*defaults);
    let mut i: usize = 0;
    while i < list.len()
        invariant
            i <= list.len(),
            before == header_entries(*old(headers)),
            all == header_entries(*defaults),
            entries_of(list@) == all,
            forall|k: int| 0 <= k < list@.len() ==> is_lower(#[trigger] list@[k].0@),
            forall|k: int| 0 <= k < list@.len() ==> is_header_name(#[trigger] list@[k].0@),
            forall|k: int| 0 <= k < list@.len() ==> is_header_value(#[trigger] list@[k].1@),
            is_merged(header_entries(*headers), before, all.take(i as int), true),
            header_entries(*headers).len() <= before.len() + i,
        decreases list.len() - i,
    {
        let ghost now = header_entries(*headers);
        let ghost name = list@[i as int].0@;
        proof {
            lemma_stored_name_of_lower(name);
            assert(all.take(i as int + 1).drop_last() =~= all.take(i as int));
            assert forall|other: Seq<char>| other != name implies values_named(all.take(i as int + 1), other) == values_named(
                all.take(i as int),
                other,
            ) by {}
        }
        if header_get(headers, list[i].0.as_str()).is_none() {
            let stored = header_set(headers, list[i].0.as_str(), list[i].1.as_slice());
            if !stored {
                proof {
                    assert(all[i as int].0 == name);
                    assert(is_cut_short(now, before, all, i as int));
                    assert forall|other: Seq<char>|
                        merged_values(
                            values_named(before, other),
                            values_named(all, other),
                            #[trigger] values_named(now, other),
                            false,
                        ) by {
                        lemma_values_grow(all, i as int, all.len() as int, other);
                        assert(all.take(all.len() as int) =~= all);
                        assert(merged_values(
                            values_named(before, other),
                            values_named(all.take(i as int), other),
                            values_named(now, other),
                            true,
                        ));
                    }
                }
                return false;
            }
            proof {
                let after = header_entries(*headers);
                assert forall|other: Seq<char>|
                    merged_values(
                        values_named(before, other),
                        values_named(all.take(i as int + 1), other),
                        #[trigger] values_named(after, other),
                        true,
                    ) by {
                    assert(merged_values(
                        values_named(before, other),
                        values_named(all.take(i as int), other),
                        values_named(now, other),
                        true,
                    ));
                }
            }
        } else {
            proof {
                assert forall|other: Seq<char>|
                    merged_values(
                        values_named(before, other),
                        values_named(all.take(i as int + 1), other),
                        #[trigger] values_named(now, other),
                        true,
                    ) by {
                    assert(merged_values(
                        values_named(before, other),
                        values_named(all.take(i as int), other),
                        values_named(now, other),
                        true,
                    ));
                }
            }
        }
        i = i + 1;
    }
    assert(all.take(i as int) =~= all);
    true
}

/// The name and version under which a client announces itself.
pub const DEFAULT_USER_AGENT: &'static str = "request_lifecycle/0.1.0";

/// A client as plain data.
pub struct ClientView {
    /// The headers that every request gets unless it has its own.
    pub headers: Seq<Entry>,
    /// Whether the client keeps cookies.
    pub keeps_cookies: bool,
    /// The names and values of the cookies that the client holds.
    pub cookies: Set<Pair>,
}

/// The names and values of the cookies that a store holds, if there is one.
pub open spec fn held_by(store: Option<SimpleCookieStore>) -> Set<Pair> {
    match store {
        Some(store) => stored_cookies(store),
        None => Set::empty(),
    }
}

/// A client: the defaults that all its requests share.
pub struct Client {
    headers: HeaderMap,
    cookie_store: Option<SimpleCookieStore>,
}

/// What a client is built from.
pub struct ClientBuilder {
    headers: HeaderMap,
    cookie_store: Option<SimpleCookieStore>,
}

impl View for Client {
    type V = ClientView;

    closed spec fn view(&self) -> ClientView {
        ClientView {
            headers: header_entries(self.headers),
            keeps_cookies: self.cookie_store is Some,
            cookies: held_by(self.cookie_store),
        }
    }
}

impl View for ClientBuilder {
    type V = ClientView;

    closed spec fn view(&self) -> ClientView {
        ClientView {
            headers: header_entries(self.headers),
            keeps_cookies: self.cookie_store is Some,
            cookies: held_by(self.cookie_store),
        }
    }
}

/// Whether `entries` are the headers of a new builder: a `User-Agent` that
/// names this crate, an `Accept` of `*/*`, and nothing else.
pub open spec fn is_initial_headers(entries: Seq<Entry>) -> bool {
    &&& entries.len() <= 2
    &&& forall|name: Seq<char>|
        {
            let values = #[trigger] values_named(entries, name);
            if name == "user-agent"@ {
                values == seq![encode_utf8(DEFAULT_USER_AGENT@)]
            } else if name == "accept"@ {
                values == seq![encode_utf8("*/*"@)]
            } else {
                values.len() == 0
            }
        }
}

/// The outcomes of laying `n` headers over a map that took them all.
pub open spec fn all_taken(n: nat) -> Seq<bool> {
    Seq::new(n, |i: int| true)
}

/// The values under `name` once the `given` headers were laid over a map
/// one by one, where `before` holds the values that the name had and
/// `taken[i]` says whether the map took the header at `i`: the value of the
/// last header of that name that the map took, or, where it took none, the
/// values from before.
pub open spec fn laid_values(before: Seq<Seq<u8>>, given: Seq<Entry>, taken: Seq<bool>, name: Seq<char>) -> Seq<Seq<u8>>
    decreases given.len(),
{
    if given.len() == 0 {
        before
    } else if given.last().0 == name && taken[given.len() - 1] {
        seq![given.last().1]
    } else {
        laid_values(before, given.drop_last(), taken, name)
    }
}

/// Whether `after` is `before` with the `given` headers laid over it, where
/// `taken` says of each given header whether the map took it.
pub open spec fn is_laid_over(after: Seq<Entry>, before: Seq<Entry>, given: Seq<Entry>, taken: Seq<bool>) -> bool {
    &&& taken.len() == given.len()
    &&& forall|name: Seq<char>| #[trigger] values_named(after, name) == laid_values(values_named(before, name), given, taken, name)
}

/// What is laid over depends on no more outcomes than there are headers.
pub proof fn lemma_laid_values_reads_its_range(
    before: Seq<Seq<u8>>,
    given: Seq<Entry>,
    taken: Seq<bool>,
    longer: Seq<bool>,
    name: Seq<char>,
)
    requires
        given.len() <= taken.len() <= longer.len(),
        forall|i: int| 0 <= i < given.len() ==> taken[i] == longer[i],
    ensures
        laid_values(before, given, taken, name) == laid_values(before, given, longer, name),
    decreases given.len(),
{
    if given.len() > 0 {
        lemma_laid_values_reads_its_range(before, given.drop_last(), taken, longer, name);
    }
}

impl ClientBuilder {
    /// A builder for a client that announces itself, accepts every media
    /// type and keeps no cookies.
    pub fn new() -> (builder: ClientBuilder)
        ensures
            is_initial_headers(builder@.headers),
            !builder@.keeps_cookies,
            builder@.cookies == Set::<Pair>::empty(),
    {
        let mut headers = HeaderMap::new();
        proof {
            reveal_strlit("user-agent");
            reveal_strlit("accept");
            reveal_strlit("request_lifecycle/0.1.0");
            reveal_strlit("*/*");
            lemma_stored_name_of_lower("user-agent"@);
            lemma_stored_name_of_lower("accept"@);
            lemma_printable_text_is_value(DEFAULT_USER_AGENT@);
            lemma_printable_text_is_value("*/*"@);
            assert(is_header_name("user-agent"@));
            assert(is_header_name("accept"@));
        }
        let announced = header_set(&mut headers, "user-agent", DEFAULT_USER_AGENT.as_bytes());
        let accepting = header_set(&mut headers, "accept", "*/*".as_bytes());
        assert(announced && accepting);
        ClientBuilder { headers, cookie_store: None }
    }

    /// The client. Building it cannot fail.
    pub fn build(self) -> (built: Result<Client, Error>)
        ensures
            built matches Ok(client) && client@ == self@,
    {
        Ok(Client { headers: self.headers, cookie_store: self.cookie_store })
    }

    /// Lays the given headers over the default headers, one by one in the
    /// order in which the given map is walked. Each that the map takes
    /// becomes the only value under its name; one that the map refuses
    /// changes nothing. The map refuses none where it is sure to have room
    /// for them all.
    pub fn default_headers(self, headers: HeaderMap) -> (builder: ClientBuilder)
        ensures
            exists|taken: Seq<bool>| is_laid_over(builder@.headers, self@.headers, header_entries(headers), taken),
            have_room(self@.headers, header_entries(headers)) ==> is_laid_over(
                builder@.headers,
                self@.headers,
                header_entries(headers),
                all_taken(header_entries(headers).len()),
            ),
            builder@.headers.len() <= self@.headers.len() + header_entries(headers).len(),
            builder@.keeps_cookies == self@.keeps_cookies,
            builder@.cookies == self@.cookies,
    {
        let mut builder = self;
        let list = header_list(&headers);
        let ghost before = header_entries(builder.headers);
        let ghost all = header_entries(headers);
        let ghost mut taken: Seq<bool> = Seq::empty();
        let mut i: usize = 0;
        while i < list.len()
            invariant
                i <= list.len(),
                before == self@.headers,
                all == header_entries(headers),
                entries_of(list@) == all,
                forall|k: int| 0 <= k < list@.len() ==> is_lower(#[trigger] list@[k].0@),
                forall|k: int| 0 <= k < list@.len() ==> is_header_name(#[trigger] list@[k].0@),
                forall|k: int| 0 <= k < list@.len() ==> is_header_value(#[trigger] list@[k].1@),
                is_laid_over(header_entries(builder.headers), before, all.take(i as int), taken),
                header_entries(builder.headers).len() <= before.len() + i,
                have_room(before, all) ==> taken == all_taken(i as nat),
                builder@.cookies == self@.cookies,
                builder@.keeps_cookies == self@.keeps_cookies,
            decreases list.len() - i,
        {
            let ghost now = header_entries(builder.headers);
            let ghost name = list@[i as int].0@;
            proof {
                lemma_stored_name_of_lower(name);
                assert(all[i as int] == (name, list@[i as int].1@));
                assert(all.take(i as int + 1).drop_last() =~= all.take(i as int));
            }
            let stored = header_set(&mut builder.headers, list[i].0.as_str(), list[i].1.as_slice());
            proof {
                let after = header_entries(builder.headers);
                let longer = taken.push(stored);
                assert forall|other: Seq<char>| #[trigger]
                    values_named(after, other) == laid_values(values_named(before, other), all.take(i as int + 1), longer, other) by {
                    lemma_laid_values_reads_its_range(values_named(before, other), all.take(i as int), taken, longer, other);
                    assert(values_named(now, other) == laid_values(values_named(before, other), all.take(i as int), taken, other));
                }
                if have_room(before, all) {
                    assert(stored);
                    assert(longer =~= all_taken(i as nat + 1));
                }
                taken = longer;
            }
            i = i + 1;
        }
        assert(all.take(i as int) =~= all);
        assert(is_laid_over(builder@.headers, self@.headers, header_entries(headers), taken));
        builder
    }

    /// Makes the client keep cookies in a new store of its own, which holds
    /// nothing yet, or keep none.
    pub fn cookie_store(self, enable: bool) -> (builder: ClientBuilder)
        ensures
            builder@ == (ClientView { keeps_cookies: enable, cookies: Set::<Pair>::empty(), ..self@ }),
    {
        let cookie_store = if enable {
            Some(SimpleCookieStore::new())
        } else {
            None
        };
        ClientBuilder { headers: self.headers, cookie_store }
    }
}

/// What a client answers when it is handed a response.
#[derive(Debug)]
pub enum Outcome {
    /// Submit this next.
    Resubmit(Submission),
    /// The response is the answer to the request.
    Done,
    /// The request has failed.
    Failed(Error),
}

/// Whether `after` with `complete` is what merging the defaults into
/// `before` gives: the merged headers, complete wherever the map is sure to
/// have room for all the defaults, and cut short at a default that the map
/// had no room for where it is not.
pub open spec fn is_merge_outcome(after: Seq<Entry>, before: Seq<Entry>, defaults: Seq<Entry>, complete: bool) -> bool {
    &&& is_merged(after, before, defaults, complete)
    &&& have_room(before, defaults) ==> complete
    &&& !complete ==> exists|k: int| is_cut_short(after, before, defaults, k)
    &&& after.len() <= before.len() + defaults.len()
}

/// Whether `after` is `before` with the cookies attached that a store
/// handed out, where `asked` says that a store was asked for cookies at all
/// and `held` is what that store holds: the cookies are among those that the
/// store holds, and their line is the `Cookie` header wherever one is owed.
pub open spec fn sent_with_cookies(
    after: Seq<Entry>,
    before: Seq<Entry>,
    asked: bool,
    held: Set<Pair>,
    cookies: Seq<Cookie>,
    taken: bool,
) -> bool {
    if asked {
        &&& pairs_of(cookies).subset_of(held)
        &&& cookies_attached(after, before, cookies, taken)
        &&& owes_cookie_header(before, cookies) ==> taken
        &&& taken ==> cookies.len() > 0 && is_header_value(cookie_line(cookies))
    } else {
        after == before
    }
}

/// Whether `after` is `before` as a first hop sends it: with the cookies
/// attached where the client keeps cookies and `before` has no `Cookie`
/// header, else as it is.
pub open spec fn sent_with_first_cookies(after: Seq<Entry>, before: Seq<Entry>, client: ClientView, cookies: Seq<Cookie>, taken: bool) -> bool {
    sent_with_cookies(after, before, client.keeps_cookies && !has_name(before, "cookie"@), client.cookies, cookies, taken)
}

/// Whether `after` are the headers of a first hop: the headers `before` of
/// the request with the defaults of the client merged in and, where the
/// client keeps cookies and there is no `Cookie` header yet, with the
/// cookies attached that its store handed out.
pub open spec fn is_first_headers(after: Seq<Entry>, before: Seq<Entry>, client: ClientView) -> bool {
    exists|merged: Seq<Entry>, complete: bool, cookies: Seq<Cookie>, taken: bool|
        {
            &&& #[trigger] is_merge_outcome(merged, before, client.headers, complete)
            &&& #[trigger] sent_with_first_cookies(after, merged, client, cookies, taken)
        }
}

/// Whether `after` are the headers of the hop that follows a redirect to
/// `target`: the headers of the rules with the cookies attached that the
/// store, which holds `held`, handed out for the target.
pub open spec fn is_hop_headers(
    after: Seq<Entry>,
    before: ExchangeView,
    status: u16,
    target: UrlView,
    keeps_cookies: bool,
    held: Set<Pair>,
) -> bool {
    exists|ruled: Seq<Entry>, cookies: Seq<Cookie>, taken: bool|
        {
            &&& follows_rules(ruled, before.headers, status, target, before.url)
            &&& ruled.len() <= before.headers.len() + 1
            &&& #[trigger] sent_with_cookies(after, ruled, keeps_cookies, held, cookies, taken)
        }
}

/// The cookies that a response with these headers sets, by name and value.
pub open spec fn cookies_set_by(response: Seq<Entry>) -> Set<Pair> {
    pairs_in(readable_views(values_named(response, "set-cookie"@)))
}

impl Client {
    /// A client with the defaults of a new builder.
    pub fn new() -> (client: Client)
        ensures
            is_initial_headers(client@.headers),
            !client@.keeps_cookies,
            client@.cookies == Set::<Pair>::empty(),
    {
        let builder = Client::builder();
        Client { headers: builder.headers, cookie_store: builder.cookie_store }
    }

    /// A builder for a client.
    pub fn builder() -> (builder: ClientBuilder)
        ensures
            is_initial_headers(builder@.headers),
            !builder@.keeps_cookies,
            builder@.cookies == Set::<Pair>::empty(),
    {
        ClientBuilder::new()
    }

    /// A `GET` request to a URL.
    pub fn get(&self, url: &str) -> (request: Result<Request, Error>)
        ensures
            is_request_for(request, Method::Get, url@),
    {
        self.request(Method::Get, url)
    }

    /// A `POST` request to a URL.
    pub fn post(&self, url: &str) -> (request: Result<Request, Error>)
        ensures
            is_request_for(request, Method::Post, url@),
    {
        self.request(Method::Post, url)
    }

    /// A `PUT` request to a URL.
    pub fn put(&self, url: &str) -> (request: Result<Request, Error>)
        ensures
            is_request_for(request, Method::Put, url@),
    {
        self.request(Method::Put, url)
    }

    /// A `PATCH` request to a URL.
    pub fn patch(&self, url: &str) -> (request: Result<Request, Error>)
        ensures
            is_request_for(request, Method::Patch, url@),
    {
        self.request(Method::Patch, url)
    }

    /// A `DELETE` request to a URL.
    pub fn delete(&self, url: &str) -> (request: Result<Request, Error>)
        ensures
            is_request_for(request, Method::Delete, url@),
    {
        self.request(Method::Delete, url)
    }

    /// A `HEAD` request to a URL.
    pub fn head(&self, url: &str) -> (request: Result<Request, Error>)
        ensures
            is_request_for(request, Method::Head, url@),
    {
        self.request(Method::Head, url)
    }

    /// A request with the given method to a URL, without headers and
    /// without a body. A text that is no URL gives an error of kind
    /// `Builder`.
    pub fn request(&self, method: Method, url: &str) -> (request: Result<Request, Error>)
        ensures
            is_request_for(request, method, url@),
    {
        match Url::parse(url) {
            Some(url) => Ok(Request::new(method, url)),
            None => Err(Error::new(Kind::Builder, "relative URL without a base".to_owned())),
        }
    }

    /// The store in which this client keeps cookies, if it keeps any.
    pub fn cookies(&self) -> (store: Option<&SimpleCookieStore>)
        ensures
            store.is_some() == self@.keeps_cookies,
            store matches Some(store) ==> stored_cookies(*store) == self@.cookies,
    {
        self.cookie_store.as_ref()
    }

    /// Opens the exchange for a request and says what to submit first; see
    /// [`begin_with`].
    pub fn begin(&self, request: Request) -> (opened: (Exchange, Submission))
        ensures
            is_begun(opened, request, self@, RedirectPolicy::Limit(DEFAULT_REDIRECT_LIMIT)),
    {
        match &self.cookie_store {
            Some(store) => begin_with(&self.headers, Some(store), RedirectPolicy::default(), request),
            None => begin_with::<SimpleCookieStore>(&self.headers, None, RedirectPolicy::default(), request),
        }
    }

    /// Takes in the status and headers of a response and says how the
    /// request goes on; see [`advance_with`]. The client comes to hold no
    /// cookie but those that it held and those that the response sets.
    pub fn advance(&mut self, exchange: &mut Exchange, status: u16, response: &HeaderMap) -> (outcome: Outcome)
        ensures
            final(self)@.headers == old(self)@.headers,
            final(self)@.keeps_cookies == old(self)@.keeps_cookies,
            final(self)@.cookies.subset_of(old(self)@.cookies.union(cookies_set_by(header_entries(*response)))),
            keeps_request(status) && old(exchange)@.replay is Spent ==> outcome is Done,
            is_advanced(
                outcome,
                old(exchange)@,
                final(exchange)@,
                status,
                header_entries(*response),
                old(self)@.keeps_cookies,
                final(self)@.cookies,
            ),
    {
        match &mut self.cookie_store {
            Some(store) => advance_with(Some(store), exchange, status, response),
            None => advance_with::<SimpleCookieStore>(None, exchange, status, response),
        }
    }
}

/// Whether `opened` is what beginning `request` gives: an exchange at the
/// first hop, with the headers of a first hop, under the given policy, and
/// the submission of the request with those headers.
pub open spec fn is_begun(opened: (Exchange, Submission), request: Request, client: ClientView, policy: RedirectPolicy) -> bool {
    &&& opened.0@.method == request.method
    &&& opened.0@.url == request.url@
    &&& opened.0@.replay == replay_of(body_view(request.body))
    &&& opened.0@.visited == Seq::<UrlView>::empty()
    &&& opened.0@.policy == policy
    &&& is_first_headers(opened.0@.headers, header_entries(request.headers), client)
    &&& opened.1@ == (SubmissionView {
        method: request.method,
        url: request.url@,
        headers: opened.0@.headers,
        body: body_view(request.body),
    })
}

/// Whether `outcome` and the state `after` are what a response with the
/// given status and headers makes of an exchange in the state `before`,
/// where `held` is what the store holds once it was handed the cookies of
/// the response.
pub open spec fn is_advanced(
    outcome: Outcome,
    before: ExchangeView,
    after: ExchangeView,
    status: u16,
    response: Seq<Entry>,
    keeps_cookies: bool,
    held: Set<Pair>,
) -> bool {
    match before.decision(status, response) {
        Decision::Follow(target) => {
            &&& outcome matches Outcome::Resubmit(submission)
            &&& after == (ExchangeView {
                method: next_method(before.method, status),
                url: target,
                headers: after.headers,
                replay: next_replay(before.replay, status),
                visited: before.visited.push(before.url),
                policy: before.policy,
            })
            &&& is_hop_headers(after.headers, before, status, target, keeps_cookies, held)
            &&& submission@ == (SubmissionView {
                method: after.method,
                url: target,
                headers: after.headers,
                body: replayed(after.replay),
            })
        },
        Decision::Done => outcome is Done && after == before,
        Decision::Fail(kind) => {
            &&& outcome matches Outcome::Failed(error)
            &&& error@ == (ErrorView { kind, url: Some(before.url.text), cause: Seq::<char>::empty() })
            &&& after == before
        },
    }
}

/// What the store that a request is begun or advanced with holds, if there
/// is one.
pub open spec fn held_in<J: CookieStore>(store: Option<&J>) -> Set<Pair> {
    match store {
        Some(store) => store.held(),
        None => Set::empty(),
    }
}

/// Opens the exchange for a request and says what to submit first. The
/// default headers are merged in; where there is a store and the request has
/// no `Cookie` header, the cookies that the store hands out for the URL are
/// attached.
pub fn begin_with<J: CookieStore>(defaults: &HeaderMap, store: Option<&J>, policy: RedirectPolicy, request: Request) -> (opened: (
    Exchange,
    Submission,
))
    ensures
        is_begun(
            opened,
            request,
            ClientView { headers: header_entries(*defaults), keeps_cookies: store is Some, cookies: held_in(store) },
            policy,
        ),
{
    let Request { method, url, headers, body } = request;
    let ghost before = header_entries(headers);
    let mut headers = headers;
    let complete = merge_default_headers(&mut headers, defaults);
    let ghost merged = header_entries(headers);
    proof {
        reveal_strlit("cookie");
        lemma_stored_name_of_lower("cookie"@);
    }
    let ghost mut cookies_used: Seq<Cookie> = Seq::empty();
    let mut taken = false;
    match store {
        Some(store) => {
            if header_get(&headers, "cookie").is_none() {
                let cookies = store.get_request_cookies(&url);
                taken = attach_cookies(&mut headers, &cookies);
                proof {
                    cookies_used = cookies@;
                }
            }
        },
        None => {},
    }
    let ghost after = header_entries(headers);
    let ghost client = ClientView { headers: header_entries(*defaults), keeps_cookies: store is Some, cookies: held_in(store) };
    proof {
        assert(is_merge_outcome(merged, before, client.headers, complete));
        assert(sent_with_first_cookies(after, merged, client, cookies_used, taken));
        assert(is_first_headers(after, before, client));
    }
    Exchange::start(Request { method, url, headers, body }, policy)
}

/// Takes in the status and headers of a response. Where there is a store, it
/// is handed the cookies that the response sets, as `response_cookies` reads
/// them, for the URL that was answered. Then the redirect rules decide;
/// where they follow, the cookies that the store hands out for the target
/// are attached and the next submission is returned.
pub fn advance_with<J: CookieStore>(store: Option<&mut J>, exchange: &mut Exchange, status: u16, response: &HeaderMap) -> (outcome:
    Outcome)
    ensures
        keeps_request(status) && old(exchange)@.replay is Spent ==> outcome is Done,
        store matches Some(jar) ==> final(jar).held().subset_of((*jar).held().union(cookies_set_by(header_entries(*response)))),
        is_advanced(
            outcome,
            old(exchange)@,
            final(exchange)@,
            status,
            header_entries(*response),
            store is Some,
            match store {
                Some(jar) => final(jar).held(),
                None => Set::empty(),
            },
        ),
{
    match store {
        Some(store) => {
            let cookies = response_cookies(response);
            store.store_response_cookies(cookies, exchange.url());
            match exchange.decide(status, response) {
                Verdict::Follow => {
                    let ghost ruled = exchange@.headers;
                    let cookies = store.get_request_cookies(exchange.url());
                    let taken = exchange.attach_cookies(&cookies);
                    assert(sent_with_cookies(exchange@.headers, ruled, true, store.held(), cookies@, taken));
                    Outcome::Resubmit(exchange.submission())
                },
                Verdict::Done => Outcome::Done,
                Verdict::Failed(error) => Outcome::Failed(error),
            }
        },
        None => {
            match exchange.decide(status, response) {
                Verdict::Follow => {
                    let ghost ruled = exchange@.headers;
                    assert(sent_with_cookies(ruled, ruled, false, Set::<Pair>::empty(), Seq::<Cookie>::empty(), false));
                    Outcome::Resubmit(exchange.submission())
                },
                Verdict::Done => Outcome::Done,
                Verdict::Failed(error) => Outcome::Failed(error),
            }
        },
    }
}

/// Where the map is sure to have room for the defaults, the first hop has,
/// under every name but `Cookie`, what the request had where it had any
/// value, and else the first value of the defaults: no default overwrites a
/// value of the request, and none that the request lacks is missing.
pub proof fn lemma_defaults_reach_first_hop(after: Seq<Entry>, before: Seq<Entry>, client: ClientView, name: Seq<char>)
    requires
        is_first_headers(after, before, client),
        have_room(before, client.headers),
        name != "cookie"@,
    ensures
        merged_values(values_named(before, name), values_named(client.headers, name), values_named(after, name), true),
{
    let (merged, complete, cookies, taken) = choose|merged: Seq<Entry>, complete: bool, cookies: Seq<Cookie>, taken: bool|
        #![trigger is_merge_outcome(merged, before, client.headers, complete), sent_with_first_cookies(after, merged, client, cookies, taken)]
        is_merge_outcome(merged, before, client.headers, complete) && sent_with_first_cookies(after, merged, client, cookies, taken);
    assert(merged_values(values_named(before, name), values_named(client.headers, name), values_named(merged, name), complete));
    assert(values_named(after, name) == values_named(merged, name));
}

/// Whether `request` is what asking for a request with `method` to the URL
/// written as `url` gives: the request where the text is a URL, an error of
/// kind `Builder` where it is not.
pub open spec fn is_request_for(request: Result<Request, Error>, method: Method, url: Seq<char>) -> bool {
    match url_parsed(url) {
        Some(parsed) => {
            &&& request matches Ok(made)
            &&& made.method == method
            &&& made.url@ == parsed
            &&& header_entries(made.headers) == Seq::<Entry>::empty()
            &&& made.body is None
        },
        None => request matches Err(error) && error@.kind == Kind::Builder,
    }
}

} // verus!
