//! Cookies as a response sets them and a request sends them back, and the
//! store that keeps them between the two.
//!
//! Parsing a `Set-Cookie` value is the work of the `cookie` crate; deciding
//! which stored cookies go with a URL is the work of a store, by default the
//! one of the `cookie_store` crate.

use crate::headers::{has_room, header_entries, header_get_all, header_set, is_header_name, is_header_value, is_with, lemma_stored_name_of_lower, values_named, Entry};
use crate::text::{text_view, utf8_text};
use crate::url::Url;
use cookie::SameSite as Mode;
use cookie_store::RawCookie;
use http::HeaderMap;
use vstd::prelude::*;

verus! {

/// `cookie::Cookie`, which `cookie_store` hands on under the name
/// `RawCookie`. Nothing inside it is visible here.
#[verifier::external_type_specification]
#[verifier::external_body]
pub struct ExRawCookie<'c>(cookie_store::RawCookie<'c>);

/// `cookie::ParseError`. Nothing inside it is visible here.
#[verifier::external_type_specification]
#[verifier::external_body]
pub struct ExRawParseError(cookie::ParseError);

/// The `SameSite` attribute of a cookie.
#[derive(Clone, Copy, Debug, PartialEq, Eq, Structural)]
pub enum SameSite {
    /// Sent only with requests from the cookie's own site.
    Strict,
    /// Sent also when the user navigates to the cookie's site from elsewhere.
    Lax,
    /// Sent with every request.
    Unrestricted,
}

/// A point in time, as its distance from the start of 1970 in whole seconds.
#[derive(Clone, Copy, Debug, PartialEq, Eq, Structural)]
pub struct UnixTime {
    /// Whether the point lies after the start of 1970.
    pub after_epoch: bool,
    /// The distance in seconds.
    pub distance: u64,
}

/// The point in time that lies `seconds` after the start of 1970, or before
/// it where `seconds` is negative.
pub open spec fn unix_time(seconds: i64) -> UnixTime {
    UnixTime { after_epoch: seconds > 0, distance: if seconds >= 0 { seconds as u64 } else { (-seconds) as u64 } }
}

impl UnixTime {
    /// Turns a count of seconds relative to the start of 1970 into a
    /// direction and a distance.
    pub fn from_seconds(seconds: i64) -> (time: UnixTime)
        ensures
            time == unix_time(seconds),
    {
        if seconds > 0 {
            UnixTime { after_epoch: true, distance: seconds as u64 }
        } else if seconds == 0 {
            UnixTime { after_epoch: false, distance: 0 }
        } else {
            let short: i64 = -(seconds + 1);
            UnixTime { after_epoch: false, distance: short as u64 + 1 }
        }
    }
}

/// The failure to read a `Set-Cookie` value as a cookie.
#[derive(Debug)]
pub struct CookieParseError(cookie::ParseError);

/// A cookie as plain data.
pub struct CookieView {
    pub name: Seq<char>,
    pub value: Seq<char>,
    pub http_only: Option<bool>,
    pub secure: Option<bool>,
    pub same_site: Option<SameSite>,
    pub path: Option<Seq<char>>,
    pub domain: Option<Seq<char>>,
    /// The `Max-Age` in whole seconds.
    pub max_age: Option<i64>,
    /// The `Expires` time in seconds since the start of 1970.
    pub expires: Option<i64>,
}

/// A single HTTP cookie. It holds the cookie as the `cookie` crate has it
/// and, beside it, what that cookie reports of itself; every way of making
/// a `Cookie` fills the two alike.
#[derive(Debug)]
pub struct Cookie {
    raw: RawCookie<'static>,
    name: String,
    value: String,
    http_only: Option<bool>,
    secure: Option<bool>,
    same_site: Option<SameSite>,
    path: Option<String>,
    domain: Option<String>,
    max_age: Option<i64>,
    expires: Option<i64>,
}

impl View for Cookie {
    type V = CookieView;

    closed spec fn view(&self) -> CookieView {
        CookieView {
            name: self.name@,
            value: self.value@,
            http_only: self.http_only,
            secure: self.secure,
            same_site: self.same_site,
            path: text_view(self.path),
            domain: text_view(self.domain),
            max_age: self.max_age,
            expires: self.expires,
        }
    }
}

/// What `cookie::Cookie::parse` reads out of a text: the cookie, or nothing
/// where the text is no cookie.
pub uninterp spec fn cookie_parsed(text: Seq<char>) -> Option<CookieView>;

/// The place of the first `c` in the text, or the length of the text where
/// it has none.
pub open spec fn first_index(text: Seq<char>, c: char) -> int
    decreases text.len(),
{
    if text.len() == 0 {
        0
    } else if text[0] == c {
        0
    } else {
        1 + first_index(text.skip(1), c)
    }
}

/// The part of a `Set-Cookie` text that holds the name and the value: what
/// comes before the first semicolon.
pub open spec fn pair_segment(text: Seq<char>) -> Seq<char> {
    text.take(first_index(text, ';'))
}

/// Whether the text has an equals sign between a name and a value.
pub open spec fn has_pair(text: Seq<char>) -> bool {
    first_index(pair_segment(text), '=') < pair_segment(text).len()
}

/// What stands before the first equals sign of the pair.
pub open spec fn name_part(text: Seq<char>) -> Seq<char> {
    pair_segment(text).take(first_index(pair_segment(text), '='))
}

/// Whether some character before the equals sign is a printable ASCII
/// character other than the space, so that the name is not blank.
pub open spec fn has_plain_name(text: Seq<char>) -> bool {
    exists|i: int| 0 <= i < name_part(text).len() && '!' <= #[trigger] name_part(text)[i] && name_part(text)[i] <= '~'
}

/// What reading the bytes of a `Set-Cookie` value gives: the cookie that
/// their text parses to, or nothing where they are no text or the text is
/// no cookie.
pub open spec fn cookie_of(value: Seq<u8>) -> Option<CookieView> {
    if vstd::utf8::valid_utf8(value) {
        cookie_parsed(vstd::utf8::decode_utf8(value))
    } else {
        None
    }
}

/// Whether `parsed` is what reading the bytes gives.
pub open spec fn is_parse_of(parsed: Result<Cookie, CookieParseError>, value: Seq<u8>) -> bool {
    match parsed {
        Ok(cookie) => cookie_of(value) == Some(cookie@),
        Err(_) => cookie_of(value) is None,
    }
}

/// Parses the text with `cookie::Cookie::parse` and copies out of the result
/// what its getters report, as `describe` does. The parse fails for a text
/// without an equals sign before its first semicolon and for one with
/// nothing, or nothing but blanks, before that sign; it succeeds for every
/// other text. Of the success no more is claimed than needs no list of
/// blanks: a name with a printable character other than the space is not
/// blank.
#[verifier::external_body]
fn parse_with_cookie_crate(text: &str) -> (parsed: Result<Cookie, cookie::ParseError>)
    ensures
        parsed matches Ok(cookie) ==> cookie_parsed(text@) == Some(cookie@),
        parsed is Err ==> cookie_parsed(text@) is None,
        !has_pair(text@) || name_part(text@).len() == 0 ==> parsed is Err,
        has_pair(text@) && has_plain_name(text@) ==> parsed is Ok,
{
    let raw = RawCookie::parse(text)?.into_owned();
    let same_site = raw.same_site().map(|mode| match mode {
        Mode::Strict => SameSite::Strict,
        Mode::Lax => SameSite::Lax,
        Mode::None => SameSite::Unrestricted,
    });
    Ok(Cookie {
        name: raw.name().into(), value: raw.value().into(), http_only: raw.http_only(), secure: raw.secure(),
        path: raw.path().map(String::from), domain: raw.domain().map(String::from), same_site,
        max_age: raw.max_age().map(|age| age.whole_seconds()),
        expires: raw.expires_datetime().map(|at| at.unix_timestamp()), raw,
    })
}

/// `From<Utf8Error>` for `cookie::ParseError`: the failure to read bytes
/// that are no text.
#[verifier::external_body]
fn failure_of(error: std::str::Utf8Error) -> (failure: cookie::ParseError) {
    cookie::ParseError::from(error)
}

/// `cookie::Cookie::new`: a cookie with a name and a value and no attribute.
#[verifier::external_body]
fn new_with_cookie_crate(name: &str, value: &str) -> (raw: RawCookie<'static>) {
    RawCookie::new(name.to_string(), value.to_string())
}

/// Copies out of a `cookie::Cookie` what its getters report: name, value,
/// the `HttpOnly` and `Secure` flags, `SameSite`, `Path`, `Domain`, `Max-Age`
/// in whole seconds and `Expires` as seconds since the start of 1970.
#[verifier::external_body]
fn describe(raw: RawCookie<'static>) -> (cookie: Cookie) {
    let same_site = raw.same_site().map(|mode| match mode {
        cookie::SameSite::Strict => SameSite::Strict,
        cookie::SameSite::Lax => SameSite::Lax,
        cookie::SameSite::None => SameSite::Unrestricted,
    });
    let (name, value) = (raw.name().to_string(), raw.value().to_string());
    let (path, domain) = (raw.path().map(str::to_string), raw.domain().map(str::to_string));
    let max_age = raw.max_age().map(|age| age.whole_seconds());
    let expires = raw.expires_datetime().map(|at| at.unix_timestamp());
    let (http_only, secure) = (raw.http_only(), raw.secure());
    Cookie { raw, name, value, http_only, secure, same_site, path, domain, max_age, expires }
}

/// The words in which `cookie::ParseError` describes itself.
#[verifier::external_body]
fn describe_failure(error: &cookie::ParseError) -> (words: String) {
    format!("{}", error)
}

impl CookieParseError {
    /// What went wrong, in words.
    pub fn message(&self) -> (words: String) {
        describe_failure(&self.0)
    }
}

impl Cookie {
    /// A cookie with the given name and value and no attribute.
    pub fn new(name: &str, value: &str) -> (cookie: Cookie)
        ensures
            cookie@ == (CookieView {
                name: name@,
                value: value@,
                http_only: None,
                secure: None,
                same_site: None,
                path: None,
                domain: None,
                max_age: None,
                expires: None,
            }),
    {
        Cookie {
            raw: new_with_cookie_crate(name, value),
            name: name.to_owned(),
            value: value.to_owned(),
            http_only: None,
            secure: None,
            same_site: None,
            path: None,
            domain: None,
            max_age: None,
            expires: None,
        }
    }

    /// Reads one `Set-Cookie` value. A value that is no cookie gives an
    /// error, which callers pass over: bytes that are no UTF-8, a text
    /// without an equals sign before its first semicolon, and a text with
    /// nothing, or nothing but blanks, before that sign.
    pub fn parse(value: &[u8]) -> (parsed: Result<Cookie, CookieParseError>)
        ensures
            is_parse_of(parsed, value@),
            !vstd::utf8::valid_utf8(value@) ==> parsed is Err,
            vstd::utf8::valid_utf8(value@) && !has_pair(vstd::utf8::decode_utf8(value@)) ==> parsed is Err,
            vstd::utf8::valid_utf8(value@) && name_part(vstd::utf8::decode_utf8(value@)).len() == 0 ==> parsed is Err,
            vstd::utf8::valid_utf8(value@) && has_pair(vstd::utf8::decode_utf8(value@)) && has_plain_name(
                vstd::utf8::decode_utf8(value@),
            ) ==> parsed is Ok,
    {
        match utf8_text(value) {
            Ok(text) => match parse_with_cookie_crate(text) {
                Ok(cookie) => Ok(cookie),
                Err(error) => Err(CookieParseError(error)),
            },
            Err(error) => Err(CookieParseError(failure_of(error))),
        }
    }

    /// The form of this cookie in which the `cookie` crate holds it.
    pub closed spec fn inner(&self) -> RawCookie<'static> {
        self.raw
    }

    /// The cookie in the form in which the `cookie` crate holds it.
    pub fn into_inner(self) -> (raw: RawCookie<'static>)
        ensures
            raw == self.inner(),
    {
        self.raw
    }

    /// The name of the cookie.
    pub fn name(&self) -> (name: &str)
        ensures
            name@ == self@.name,
    {
        self.name.as_str()
    }

    /// The value of the cookie.
    pub fn value(&self) -> (value: &str)
        ensures
            value@ == self@.value,
    {
        self.value.as_str()
    }

    /// Whether the `HttpOnly` directive is enabled.
    pub fn http_only(&self) -> (enabled: bool)
        ensures
            enabled == (self@.http_only == Some(true)),
    {
        match self.http_only {
            Some(enabled) => enabled,
            None => false,
        }
    }

    /// Whether the `Secure` directive is enabled.
    pub fn secure(&self) -> (enabled: bool)
        ensures
            enabled == (self@.secure == Some(true)),
    {
        match self.secure {
            Some(enabled) => enabled,
            None => false,
        }
    }

    /// Whether the `SameSite` directive is `Lax`.
    pub fn same_site_lax(&self) -> (lax: bool)
        ensures
            lax == (self@.same_site == Some(SameSite::Lax)),
    {
        matches!(self.same_site, Some(SameSite::Lax))
    }

    /// Whether the `SameSite` directive is `Strict`.
    pub fn same_site_strict(&self) -> (strict: bool)
        ensures
            strict == (self@.same_site == Some(SameSite::Strict)),
    {
        matches!(self.same_site, Some(SameSite::Strict))
    }

    /// The `Path` directive, if set.
    pub fn path(&self) -> (path: Option<&str>)
        ensures
            path.is_some() == self@.path.is_some(),
            path matches Some(text) ==> Some(text@) == self@.path,
    {
        match &self.path {
            Some(path) => Some(path.as_str()),
            None => None,
        }
    }

    /// The `Domain` directive, if set.
    pub fn domain(&self) -> (domain: Option<&str>)
        ensures
            domain.is_some() == self@.domain.is_some(),
            domain matches Some(text) ==> Some(text@) == self@.domain,
    {
        match &self.domain {
            Some(domain) => Some(domain.as_str()),
            None => None,
        }
    }

    /// The `Max-Age` in whole seconds, if set. An age below zero counts as
    /// zero.
    pub fn max_age(&self) -> (age: Option<u64>)
        ensures
            age == (match self@.max_age {
                Some(seconds) => Some(if seconds >= 0 { seconds as u64 } else { 0u64 }),
                None => None,
            }),
    {
        match self.max_age {
            Some(seconds) => if seconds >= 0 {
                Some(seconds as u64)
            } else {
                Some(0)
            },
            None => None,
        }
    }

    /// The time at which the cookie expires, if set.
    pub fn expires(&self) -> (time: Option<UnixTime>)
        ensures
            time == (match self@.expires {
                Some(seconds) => Some(unix_time(seconds)),
                None => None,
            }),
    {
        match self.expires {
            Some(seconds) => Some(UnixTime::from_seconds(seconds)),
            None => None,
        }
    }
}

/// The readable cookies among parse results, in order.
pub open spec fn readable(parsed: Seq<Result<Cookie, CookieParseError>>) -> Seq<Cookie>
    decreases parsed.len(),
{
    if parsed.len() == 0 {
        Seq::empty()
    } else {
        match parsed.last() {
            Ok(cookie) => readable(parsed.drop_last()).push(cookie),
            Err(_) => readable(parsed.drop_last()),
        }
    }
}

/// Reads every `Set-Cookie` value of a response, in the order in which the
/// map holds them. There is one result for each value.
pub fn extract_response_cookies(headers: &HeaderMap) -> (parsed: Vec<Result<Cookie, CookieParseError>>)
    ensures
        parsed@.len() == values_named(header_entries(*headers), "set-cookie"@).len(),
        forall|i: int|
            0 <= i < parsed@.len() ==> is_parse_of(#[trigger] parsed@[i], values_named(header_entries(*headers), "set-cookie"@)[i]),
{
    proof {
        reveal_strlit("set-cookie");
        lemma_stored_name_of_lower("set-cookie"@);
    }
    let values = header_get_all(headers, "set-cookie");
    let mut parsed: Vec<Result<Cookie, CookieParseError>> = Vec::new();
    let mut i: usize = 0;
    let ghost set = values_named(header_entries(*headers), "set-cookie"@);
    while i < values.len()
        invariant
            i <= values.len(),
            parsed@.len() == i,
            values@.map_values(|v: Vec<u8>| v@) == set,
            forall|k: int| 0 <= k < i ==> is_parse_of(#[trigger] parsed@[k], set[k]),
        decreases values.len() - i,
    {
        parsed.push(Cookie::parse(values[i].as_slice()));
        i = i + 1;
    }
    parsed
}

/// The cookies that a list of `Set-Cookie` values gives: for each value
/// that is a cookie, in order, the cookie that it parses to.
pub open spec fn readable_views(values: Seq<Seq<u8>>) -> Seq<CookieView>
    decreases values.len(),
{
    if values.len() == 0 {
        Seq::empty()
    } else {
        match cookie_of(values.last()) {
            Some(cookie) => readable_views(values.drop_last()).push(cookie),
            None => readable_views(values.drop_last()),
        }
    }
}

/// The readable ones among the results of parsing a list of values are the
/// cookies that the list gives.
pub proof fn lemma_readable_views(parsed: Seq<Result<Cookie, CookieParseError>>, values: Seq<Seq<u8>>)
    requires
        parsed.len() == values.len(),
        forall|i: int| 0 <= i < parsed.len() ==> is_parse_of(#[trigger] parsed[i], values[i]),
    ensures
        views_of(readable(parsed)) == readable_views(values),
    decreases parsed.len(),
{
    if parsed.len() > 0 {
        lemma_readable_views(parsed.drop_last(), values.drop_last());
        assert(is_parse_of(parsed[parsed.len() - 1], values[values.len() - 1]));
        match parsed.last() {
            Ok(cookie) => {
                assert(views_of(readable(parsed)) =~= views_of(readable(parsed.drop_last())).push(cookie@));
            },
            Err(_) => {},
        }
    } else {
        assert(views_of(readable(parsed)) =~= Seq::<CookieView>::empty());
    }
}

/// The cookies that a response sets: for each of its `Set-Cookie` values
/// that is a cookie, in the order in which the map holds them, the cookie
/// that it parses to. The values that are no cookies are passed over.
pub fn response_cookies(response: &HeaderMap) -> (cookies: Vec<Cookie>)
    ensures
        views_of(cookies@) == readable_views(values_named(header_entries(*response), "set-cookie"@)),
{
    let parsed = extract_response_cookies(response);
    proof {
        lemma_readable_views(parsed@, values_named(header_entries(*response), "set-cookie"@));
    }
    valid_cookies(parsed)
}

/// Keeps the readable cookies among parse results, in order, and passes
/// over the unreadable ones.
pub fn valid_cookies(parsed: Vec<Result<Cookie, CookieParseError>>) -> (cookies: Vec<Cookie>)
    ensures
        cookies@ == readable(parsed@),
{
    let mut cookies: Vec<Cookie> = Vec::new();
    for item in it: parsed
        invariant
            cookies@ == readable(parsed@.take(it.index() as int)),
    {
        proof {
            let i = it.index() as int;
            assert(parsed@.take(i + 1).drop_last() =~= parsed@.take(i));
        }
        match item {
            Ok(cookie) => {
                cookies.push(cookie);
            },
            Err(_) => {},
        }
    }
    assert(parsed@.take(parsed@.len() as int) =~= parsed@);
    cookies
}

/// One cookie as a request sends it: the name, an equals sign and the value.
pub open spec fn cookie_pair(cookie: CookieView) -> Seq<u8> {
    vstd::utf8::encode_utf8(cookie.name) + seq![61u8] + vstd::utf8::encode_utf8(cookie.value)
}

/// The value of a `Cookie` header that sends the given cookies: the pairs in
/// order, joined by a semicolon and a space.
pub open spec fn cookie_line(cookies: Seq<Cookie>) -> Seq<u8>
    decreases cookies.len(),
{
    if cookies.len() == 0 {
        Seq::empty()
    } else if cookies.len() == 1 {
        cookie_pair(cookies[0]@)
    } else {
        cookie_line(cookies.drop_last()) + seq![59u8, 32u8] + cookie_pair(cookies.last()@)
    }
}

/// Writes the value of the `Cookie` header for the given cookies.
pub fn cookie_header_value(cookies: &Vec<Cookie>) -> (line: Vec<u8>)
    ensures
        line@ == cookie_line(cookies@),
{
    let mut line: Vec<u8> = Vec::new();
    let mut i: usize = 0;
    while i < cookies.len()
        invariant
            i <= cookies.len(),
            line@ == cookie_line(cookies@.take(i as int)),
        decreases cookies.len() - i,
    {
        if i > 0 {
            line.push(59u8);
            line.push(32u8);
        }
        line.extend_from_slice(cookies[i].name().as_bytes());
        line.push(61u8);
        line.extend_from_slice(cookies[i].value().as_bytes());
        proof {
            let before = cookies@.take(i as int);
            let now = cookies@.take(i as int + 1);
            assert(now.drop_last() =~= before);
        }
        i = i + 1;
    }
    assert(cookies@.take(i as int) =~= cookies@);
    line
}

/// What `attach_cookies` leaves of the headers `before`: with no cookie to
/// send, the same headers; else the cookie line as the only `Cookie` header
/// where the map took it, and the same headers where it did not.
pub open spec fn cookies_attached(after: Seq<Entry>, before: Seq<Entry>, cookies: Seq<Cookie>, taken: bool) -> bool {
    if cookies.len() > 0 && taken {
        is_with(after, before, "cookie"@, cookie_line(cookies))
    } else {
        after == before
    }
}

/// Whether a `Cookie` header for the given cookies is owed: there is a
/// cookie to send, the line is a valid header value, and the map is sure to
/// have room.
pub open spec fn owes_cookie_header(before: Seq<Entry>, cookies: Seq<Cookie>) -> bool {
    cookies.len() > 0 && is_header_value(cookie_line(cookies)) && has_room(before)
}

/// Sets the `Cookie` header to send the given cookies; with no cookie, the
/// headers are left alone. Returns whether a header was set. None is set for
/// a line that holds a byte that no header value may hold; any other line is
/// set unless the map has no room.
pub fn attach_cookies(headers: &mut HeaderMap, cookies: &Vec<Cookie>) -> (taken: bool)
    ensures
        cookies_attached(header_entries(*final(headers)), header_entries(*old(headers)), cookies@, taken),
        owes_cookie_header(header_entries(*old(headers)), cookies@) ==> taken,
        taken ==> cookies@.len() > 0 && is_header_value(cookie_line(cookies@)),
        header_entries(*final(headers)).len() <= header_entries(*old(headers)).len() + 1,
{
    let line = cookie_header_value(cookies);
    proof {
        reveal_strlit("cookie");
        lemma_stored_name_of_lower("cookie"@);
        assert(is_header_name("cookie"@));
    }
    if line.len() == 0 {
        return false;
    }
    header_set(headers, "cookie", line.as_slice())
}

/// A store of cookies that can be put into a client.
///
/// What a store hands out for a URL, and what it keeps of the cookies it is
/// given, is for each implementation to decide.
pub trait CookieStore {
    /// The names and values of the cookies that the store holds. What the
    /// methods promise is stated over it, so a store that hands out cookies
    /// has to say here that it holds them; one that says nothing is taken to
    /// hold nothing.
    open spec fn held(&self) -> Set<Pair> {
        Set::empty()
    }

    /// The cookies that should go with a request to this URL. They are
    /// cookies that the store holds.
    fn get_request_cookies(&self, url: &Url) -> (cookies: Vec<Cookie>)
        ensures
            pairs_of(cookies@).subset_of(self.held()),
    ;

    /// Takes in the cookies that a response to a request to this URL set.
    /// The store comes to hold nothing but what it held and what it is
    /// given.
    fn store_response_cookies(&mut self, cookies: Vec<Cookie>, url: &Url)
        ensures
            final(self).held().subset_of(old(self).held().union(pairs_of(cookies@))),
    ;
}

/// The name and value of one cookie.
pub type Pair = (Seq<char>, Seq<char>);

/// The plain form of a list of cookies.
pub open spec fn views_of(cookies: Seq<Cookie>) -> Seq<CookieView> {
    cookies.map_values(|cookie: Cookie| cookie@)
}

/// The names and values of the given cookies.
pub open spec fn pairs_in(cookies: Seq<CookieView>) -> Set<Pair> {
    Set::new(|pair: Pair| exists|i: int| 0 <= i < cookies.len() && pair == ((#[trigger] cookies[i]).name, cookies[i].value))
}

/// The names and values of the given cookies.
pub open spec fn pairs_of(cookies: Seq<Cookie>) -> Set<Pair> {
    pairs_in(views_of(cookies))
}

/// A store with the matching rules of the `cookie_store` crate and no
/// further functions. It holds a `cookie_store::CookieStore`. Which of its
/// cookies it hands out depends on the clock, by which cookies expire; what
/// is stated of it is that it holds no cookie that it was not given.
#[verifier::external_body]
pub struct SimpleCookieStore(cookie_store::CookieStore);

/// The names and values of the cookies that a store holds, the expired ones
/// counted in.
pub uninterp spec fn stored_cookies(store: SimpleCookieStore) -> Set<Pair>;

/// `cookie_store::CookieStore::default`: a store that holds nothing.
#[verifier::external_body]
fn new_store() -> (store: SimpleCookieStore)
    ensures
        stored_cookies(store) == Set::<Pair>::empty(),
{
    SimpleCookieStore(cookie_store::CookieStore::default())
}

/// Parses the URL with `url::Url::parse` and asks
/// `cookie_store::CookieStore::get_request_cookies` for the cookies that go
/// with it; each comes with its name and its value copied out. All of them
/// are cookies that the store holds. Which of those they are depends on the
/// clock, and their order on how the store walks its maps; for a text that
/// is no URL there are none.
#[verifier::external_body]
#[allow(deprecated)]
fn matching_cookies(store: &SimpleCookieStore, url: &str) -> (found: Vec<(String, String, RawCookie<'static>)>)
    ensures
        forall|i: int| 0 <= i < found@.len() ==> stored_cookies(*store).contains(((#[trigger] found@[i]).0@, found@[i].1@)),
{
    match url::Url::parse(url) {
        Ok(url) => store.0.get_request_cookies(&url).map(|c| (c.name().to_string(), c.value().to_string(), c.clone())).collect(),
        Err(_) => Vec::new(),
    }
}

/// Parses the URL with `url::Url::parse` and hands the `cookie::Cookie` that
/// each given cookie holds to
/// `cookie_store::CookieStore::store_response_cookies`, which keeps those
/// that the URL may set and drops what they replace. Afterwards the store
/// holds nothing but what it held before and what it was given; a cookie is
/// given under the name and value of the `cookie::Cookie` that it holds,
/// which are the name and value that it reports itself. For a text that is
/// no URL nothing is stored.
#[verifier::external_body]
fn keep_cookies(store: &mut SimpleCookieStore, cookies: Vec<Cookie>, url: &str)
    ensures
        stored_cookies(*final(store)).subset_of(stored_cookies(*old(store)).union(pairs_of(cookies@))),
{
    if let Ok(url) = url::Url::parse(url) {
        store.0.store_response_cookies(cookies.into_iter().map(|cookie| cookie.raw), &url);
    }
}

impl SimpleCookieStore {
    /// A store that holds nothing.
    pub fn new() -> (store: SimpleCookieStore)
        ensures
            stored_cookies(store) == Set::<Pair>::empty(),
    {
        new_store()
    }
}

impl Default for SimpleCookieStore {
    fn default() -> (store: SimpleCookieStore)
        ensures
            stored_cookies(store) == Set::<Pair>::empty(),
    {
        new_store()
    }
}

impl CookieStore for SimpleCookieStore {
    open spec fn held(&self) -> Set<Pair> {
        stored_cookies(*self)
    }

    /// The cookies of this store that go with the URL, each with the name
    /// and value under which the store holds it.
    fn get_request_cookies(&self, url: &Url) -> (cookies: Vec<Cookie>) {
        let found = matching_cookies(self, url.as_str());
        let mut cookies: Vec<Cookie> = Vec::new();
        for item in it: found
            invariant
                forall|i: int| 0 <= i < found@.len() ==> stored_cookies(*self).contains(((#[trigger] found@[i]).0@, found@[i].1@)),
                pairs_of(cookies@).subset_of(stored_cookies(*self)),
        {
            let ghost earlier = cookies@;
            let (name, value, raw) = item;
            let rest = describe(raw);
            let cookie = Cookie {
                raw: rest.raw,
                name,
                value,
                http_only: rest.http_only,
                secure: rest.secure,
                same_site: rest.same_site,
                path: rest.path,
                domain: rest.domain,
                max_age: rest.max_age,
                expires: rest.expires,
            };
            cookies.push(cookie);
            proof {
                assert forall|pair: Pair| pairs_of(cookies@).contains(pair) implies stored_cookies(*self).contains(pair) by {
                    let views = views_of(cookies@);
                    let i = choose|i: int| 0 <= i < views.len() && pair == ((#[trigger] views[i]).name, views[i].value);
                    if i < earlier.len() {
                        assert(views_of(earlier)[i] == views[i]);
                        assert(pairs_of(earlier).contains(pair));
                    }
                }
            }
        }
        cookies
    }

    /// Hands the cookies to this store, which keeps those that the URL may
    /// set.
    fn store_response_cookies(&mut self, cookies: Vec<Cookie>, url: &Url) {
        keep_cookies(self, cookies, url.as_str());
    }
}

} // verus!
