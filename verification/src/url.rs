//! Absolute URLs, held as their text together with the parts that the
//! request logic reads. Parsing and resolving is the work of the `url` crate.

use crate::text::text_view;
use vstd::prelude::*;

verus! {

/// A URL as plain data.
pub struct UrlView {
    /// The whole URL in its normal written form.
    pub text: Seq<char>,
    /// The scheme, in lower case and without the colon.
    pub scheme: Seq<char>,
    /// The host as written in the URL, where it has one.
    pub host: Option<Seq<char>>,
    /// The port: the one written, else the one that the scheme implies.
    pub port: Option<u16>,
}

/// An absolute URL.
#[derive(Debug, PartialEq, Eq)]
pub struct Url {
    text: String,
    scheme: String,
    host: Option<String>,
    port: Option<u16>,
}

impl View for Url {
    type V = UrlView;

    closed spec fn view(&self) -> UrlView {
        UrlView {
            text: self.text@,
            scheme: self.scheme@,
            host: match self.host {
                Some(host) => Some(host@),
                None => None,
            },
            port: self.port,
        }
    }
}

/// What `url::Url::parse` makes of a text: the URL, or nothing where the text
/// is no absolute URL.
pub uninterp spec fn url_parsed(text: Seq<char>) -> Option<UrlView>;

/// What `url::Url::join` makes of a reference seen from the URL written as
/// `base`: the URL that the reference points to, or nothing where either does
/// not parse.
pub uninterp spec fn url_joined(base: Seq<char>, reference: Seq<char>) -> Option<UrlView>;

/// The written form of the URL written as `text` after
/// `url::Url::set_username` was asked to give it this user name; nothing
/// where `text` does not parse.
pub uninterp spec fn url_with_username(text: Seq<char>, username: Seq<char>) -> Option<Seq<char>>;

/// The written form of the URL written as `text` after
/// `url::Url::set_password` was asked to give it this password, or none;
/// nothing where `text` does not parse.
pub uninterp spec fn url_with_password(text: Seq<char>, password: Option<Seq<char>>) -> Option<Seq<char>>;

/// The written form of the URL written as `text` after
/// `url::Url::set_fragment` gave it this fragment, or none; nothing where
/// `text` does not parse.
pub uninterp spec fn url_with_fragment(text: Seq<char>, fragment: Option<Seq<char>>) -> Option<Seq<char>>;

/// The plain form of an optional piece of text.
pub open spec fn piece_view(piece: Option<&str>) -> Option<Seq<char>> {
    match piece {
        Some(piece) => Some(piece@),
        None => None,
    }
}

/// The written form of the URL written as `text` with its secrets taken
/// out: first the user name is emptied, then the password removed, then the
/// fragment removed. Nothing where `text` does not parse.
pub open spec fn url_without_secrets(text: Seq<char>) -> Option<Seq<char>> {
    match url_with_username(text, Seq::<char>::empty()) {
        None => None,
        Some(nameless) => match url_with_password(nameless, None) {
            None => None,
            Some(open) => url_with_fragment(open, None),
        },
    }
}

/// Whether `http::Uri` accepts `text` as a request target.
pub uninterp spec fn is_request_target(text: Seq<char>) -> bool;

/// The plain form of an optional URL.
pub open spec fn option_view(url: Option<Url>) -> Option<UrlView> {
    match url {
        Some(url) => Some(url@),
        None => None,
    }
}

/// Parses with `url::Url::parse` and copies out the written form, the scheme,
/// the host and the port (written or implied by the scheme).
#[verifier::external_body]
fn parse_with_url_crate(text: &str) -> (url: Option<Url>)
    ensures
        option_view(url) == url_parsed(text@),
{
    let parsed = url::Url::parse(text).ok()?;
    Some(Url {
        text: parsed.as_str().to_string(),
        scheme: parsed.scheme().to_string(),
        host: parsed.host_str().map(str::to_string),
        port: parsed.port_or_known_default(),
    })
}

/// Parses `base` with `url::Url::parse`, resolves `reference` against it with
/// `url::Url::join`, and copies the parts of the result out.
#[verifier::external_body]
fn join_with_url_crate(base: &str, reference: &str) -> (url: Option<Url>)
    ensures
        option_view(url) == url_joined(base@, reference@),
{
    let joined = url::Url::parse(base).ok()?.join(reference).ok()?;
    Some(Url {
        text: joined.as_str().to_string(),
        scheme: joined.scheme().to_string(),
        host: joined.host_str().map(str::to_string),
        port: joined.port_or_known_default(),
    })
}

/// Parses `text` with `url::Url::parse`, asks `url::Url::set_username` to
/// set the user name, and returns the written form that is left. A URL that
/// cannot carry a user name is left as it is.
#[verifier::external_body]
fn set_username_with_url_crate(text: &str, username: &str) -> (changed: Option<String>)
    ensures
        text_view(changed) == url_with_username(text@, username@),
{
    let mut url = url::Url::parse(text).ok()?;
    let _ = url.set_username(username);
    Some(url.into())
}

/// Parses `text` with `url::Url::parse`, asks `url::Url::set_password` to
/// set or remove the password, and returns the written form that is left. A
/// URL that cannot carry a password is left as it is.
#[verifier::external_body]
fn set_password_with_url_crate(text: &str, password: Option<&str>) -> (changed: Option<String>)
    ensures
        text_view(changed) == url_with_password(text@, piece_view(password)),
{
    let mut url = url::Url::parse(text).ok()?;
    let _ = url.set_password(password);
    Some(url.into())
}

/// Parses `text` with `url::Url::parse`, sets or removes the fragment with
/// `url::Url::set_fragment`, and returns the written form that is left.
#[verifier::external_body]
fn set_fragment_with_url_crate(text: &str, fragment: Option<&str>) -> (changed: Option<String>)
    ensures
        text_view(changed) == url_with_fragment(text@, piece_view(fragment)),
{
    let mut url = url::Url::parse(text).ok()?;
    url.set_fragment(fragment);
    Some(url.into())
}

/// Asks `http::Uri` whether it can parse the text.
#[verifier::external_body]
fn parses_as_uri(text: &str) -> (accepted: bool)
    ensures
        accepted == is_request_target(text@),
{
    text.parse::<http::Uri>().is_ok()
}

impl Url {
    /// Parses an absolute URL.
    pub fn parse(text: &str) -> (url: Option<Url>)
        ensures
            option_view(url) == url_parsed(text@),
    {
        parse_with_url_crate(text)
    }

    /// Resolves a reference, as a `Location` header gives one, against this
    /// URL.
    pub fn join(&self, reference: &str) -> (url: Option<Url>)
        ensures
            option_view(url) == url_joined(self@.text, reference@),
    {
        join_with_url_crate(self.text.as_str(), reference)
    }

    /// The written form of this URL with its secrets taken out: the user
    /// name emptied, the password removed and the fragment removed, in this
    /// order.
    pub fn without_secrets(&self) -> (stripped: Option<String>)
        ensures
            text_view(stripped) == url_without_secrets(self@.text),
    {
        proof {
            reveal_strlit("");
            assert(""@ =~= Seq::<char>::empty());
        }
        let nameless = match set_username_with_url_crate(self.text.as_str(), "") {
            Some(text) => text,
            None => {
                return None;
            },
        };
        let open = match set_password_with_url_crate(nameless.as_str(), None) {
            Some(text) => text,
            None => {
                return None;
            },
        };
        set_fragment_with_url_crate(open.as_str(), None)
    }

    /// Whether this URL can be written as the target of a request.
    pub fn is_request_target(&self) -> (accepted: bool)
        ensures
            accepted == is_request_target(self@.text),
    {
        parses_as_uri(self.text.as_str())
    }

    /// The whole URL as text.
    pub fn as_str(&self) -> (text: &str)
        ensures
            text@ == self@.text,
    {
        self.text.as_str()
    }

    /// The scheme, such as `https`.
    pub fn scheme(&self) -> (scheme: &str)
        ensures
            scheme@ == self@.scheme,
    {
        self.scheme.as_str()
    }

    /// The host, where the URL has one.
    pub fn host_str(&self) -> (host: Option<&str>)
        ensures
            host.is_some() == self@.host.is_some(),
            host matches Some(h) ==> Some(h@) == self@.host,
    {
        match &self.host {
            Some(host) => Some(host.as_str()),
            None => None,
        }
    }

    /// The port that is written in the URL or implied by its scheme.
    pub fn port_or_known_default(&self) -> (port: Option<u16>)
        ensures
            port == self@.port,
    {
        self.port
    }

    /// A copy of this URL.
    pub fn duplicate(&self) -> (copy: Url)
        ensures
            copy@ == self@,
    {
        let host = match &self.host {
            Some(host) => Some(host.clone()),
            None => None,
        };
        Url { text: self.text.clone(), scheme: self.scheme.clone(), host, port: self.port }
    }

    /// Whether two URLs are written the same.
    pub fn same_as(&self, other: &Url) -> (same: bool)
        ensures
            same == (self@.text == other@.text),
    {
        self.text == other.text
    }
}

} // verus!
