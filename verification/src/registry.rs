//! Endpoints, credentials, options, and the drivers they lead to.

use vstd::prelude::*;
use crate::error::{Error, ErrorView};
use crate::names::NameMap;
use crate::text;

verus! {

// ---------------------------------------------------------------------------
// Endpoints
// ---------------------------------------------------------------------------

/// A parsed endpoint URI.
///
/// The registry only understands enough of a URI to route it: the scheme, and
/// the remainder for the driver to interpret. What comes after `://` is
/// entirely the backend's business.
#[derive(Clone, PartialEq, Eq, Debug)]
pub struct Endpoint {
    scheme: String,
    authority_and_path: String,
    raw: String,
}

/// An [`Endpoint`] as texts.
#[verifier::ext_equal]
pub struct EndpointView {
    pub scheme: Seq<char>,
    pub authority_and_path: Seq<char>,
    pub raw: Seq<char>,
}

impl View for Endpoint {
    type V = EndpointView;

    closed spec fn view(&self) -> EndpointView {
        EndpointView {
            scheme: self.scheme@,
            authority_and_path: self.authority_and_path@,
            raw: self.raw@,
        }
    }
}

/// Whether a character may stand in a URI scheme.
pub open spec fn is_scheme_char(c: char) -> bool {
    'a' <= c <= 'z' || 'A' <= c <= 'Z' || '0' <= c <= '9' || c == '+' || c == '-' || c == '.'
}

/// Whether a text is a URI scheme.
pub open spec fn is_scheme(s: Seq<char>) -> bool {
    s.len() > 0 && forall|i: int| 0 <= i < s.len() ==> is_scheme_char(#[trigger] s[i])
}

/// What is wrong with `uri` as an endpoint, if anything.
pub open spec fn endpoint_fault(uri: Seq<char>) -> Option<Seq<char>> {
    match text::cut(uri, "://"@) {
        None => Some("endpoint is missing a `scheme://` prefix"@),
        Some((scheme, _)) => if scheme.len() == 0 {
            Some("endpoint has an empty scheme"@)
        } else if !is_scheme(scheme) {
            Some("`"@ + scheme + "` is not a valid URI scheme"@)
        } else {
            None
        },
    }
}

/// The endpoint that a faultless `uri` names.
pub open spec fn endpoint_of(uri: Seq<char>) -> EndpointView {
    let (scheme, rest) = text::cut(uri, "://"@)->0;
    EndpointView { scheme: text::lowered(scheme), authority_and_path: rest, raw: uri }
}

fn is_scheme_text(s: &str) -> (r: bool)
    requires
        s@.len() > 0,
    ensures
        r == is_scheme(s@),
{
    for c in it: s.chars()
        invariant
            it.seq() == s@,
            forall|i: int| 0 <= i < it.index() ==> is_scheme_char(#[trigger] s@[i]),
    {
        assert(c == s@[it.index()]);
        if !(('a' <= c && c <= 'z') || ('A' <= c && c <= 'Z') || ('0' <= c && c <= '9') || c == '+'
            || c == '-' || c == '.') {
            return false;
        }
    }
    true
}

impl Endpoint {
    /// Parse `scheme://rest`. The scheme is matched case-insensitively and
    /// normalized to lowercase.
    pub fn parse(uri: &str) -> (r: Result<Self, Error>)
        ensures
            match endpoint_fault(uri@) {
                None => r matches Ok(endpoint) && endpoint@ == endpoint_of(uri@),
                Some(reason) => r matches Err(e) && e@ == (ErrorView::InvalidPath {
                    path: uri@,
                    reason,
                }),
            },
    {
        match text::split_once(uri, "://") {
            None => Err(Error::invalid_path(uri, "endpoint is missing a `scheme://` prefix")),
            Some((scheme, rest)) => {
                if text::is_empty(&scheme) {
                    return Err(Error::invalid_path(uri, "endpoint has an empty scheme"));
                }
                if !is_scheme_text(&scheme) {
                    let mut reason = text::joined("`", &scheme);
                    reason.append("` is not a valid URI scheme");
                    return Err(Error::invalid_path(uri, &reason));
                }
                Ok(
                    Endpoint {
                        scheme: text::lower(&scheme),
                        authority_and_path: rest,
                        raw: uri.to_owned(),
                    },
                )
            },
        }
    }

    pub fn scheme(&self) -> (r: &str)
        ensures
            r@ == self@.scheme,
    {
        self.scheme.as_str()
    }

    /// Everything after `://`, for the driver to parse however it likes.
    pub fn authority_and_path(&self) -> (r: &str)
        ensures
            r@ == self@.authority_and_path,
    {
        self.authority_and_path.as_str()
    }

    pub fn as_str(&self) -> (r: &str)
        ensures
            r@ == self@.raw,
    {
        self.raw.as_str()
    }

    /// The URI as it was given.
    pub fn to_string(&self) -> (r: String)
        ensures
            r@ == self@.raw,
    {
        self.raw.clone()
    }
}

/// Two URIs that differ only in the case of their scheme lead to the same
/// driver.
pub proof fn schemes_match_whatever_their_case(a: Seq<char>, b: Seq<char>)
    requires
        endpoint_fault(a) is None,
        endpoint_fault(b) is None,
        text::lowered((text::cut(a, "://"@)->0).0) == text::lowered((text::cut(b, "://"@)->0).0),
    ensures
        endpoint_of(a).scheme == endpoint_of(b).scheme,
        text::lowered(endpoint_of(a).scheme) == endpoint_of(a).scheme,
{
    text::lowering_is_idempotent((text::cut(a, "://"@)->0).0);
}

// ---------------------------------------------------------------------------
// Options
// ---------------------------------------------------------------------------

/// Per-connection settings that are neither credentials nor part of the URI.
///
/// Keys are namespaced by protocol so that a caller configuring several
/// backends cannot have one protocol's setting silently apply to another. A key
/// a backend does not recognise is ignored.
#[derive(Debug, PartialEq, Eq)]
pub struct ConnectionOptions {
    settings: NameMap<String>,
}

impl View for ConnectionOptions {
    type V = Map<Seq<char>, Seq<char>>;

    closed spec fn view(&self) -> Map<Seq<char>, Seq<char>> {
        self.settings@.map_values(|v: String| v@)
    }
}

/// The boolean that a setting spells, if it spells one.
pub open spec fn spelled_bool(value: Seq<char>) -> Option<bool> {
    let word = text::lowered(text::trimmed(value));
    if word == "1"@ || word == "true"@ || word == "yes"@ || word == "on"@ {
        Some(true)
    } else if word == "0"@ || word == "false"@ || word == "no"@ || word == "off"@ {
        Some(false)
    } else {
        None
    }
}

/// Reads a boolean.
pub fn parse_bool(value: &str) -> (r: Option<bool>)
    ensures
        r == spelled_bool(value@),
{
    let word = text::lower(&text::trim(value));
    if text::same_text(&word, "1") || text::same_text(&word, "true") || text::same_text(&word, "yes")
        || text::same_text(&word, "on") {
        Some(true)
    } else if text::same_text(&word, "0") || text::same_text(&word, "false") || text::same_text(
        &word,
        "no",
    ) || text::same_text(&word, "off") {
        Some(false)
    } else {
        None
    }
}

impl ConnectionOptions {
    pub fn new() -> (r: Self)
        ensures
            r@ == Map::<Seq<char>, Seq<char>>::empty(),
    {
        let r = ConnectionOptions { settings: NameMap::new() };
        assert(r@ =~= Map::<Seq<char>, Seq<char>>::empty());
        r
    }

    pub fn set(&mut self, key: &str, value: &str) -> (r: &mut Self)
        ensures
            r@ == old(self)@.insert(key@, value@),
            *final(self) == *final(r),
    {
        let _ = self.settings.insert(key.to_owned(), value.to_owned());
        assert(self@ =~= old(self)@.insert(key@, value@));
        self
    }

    /// Builder form, for use where the options are assembled inline.
    pub fn with(self, key: &str, value: &str) -> (r: Self)
        ensures
            r@ == self@.insert(key@, value@),
    {
        let mut out = self;
        let _ = out.set(key, value);
        out
    }

    pub fn get(&self, key: &str) -> (r: Option<&str>)
        ensures
            match r {
                Some(v) => self@.contains_key(key@) && v@ == self@[key@],
                None => !self@.contains_key(key@),
            },
    {
        match self.settings.get(key) {
            Some(v) => Some(v.as_str()),
            None => None,
        }
    }

    /// Read a boolean setting.
    ///
    /// Returns `None` when the key is absent, and also when its value is not a
    /// recognised boolean: a typo must not be silently read as `false` for a
    /// setting whose whole point is to turn something on.
    pub fn get_bool(&self, key: &str) -> (r: Option<bool>)
        ensures
            r == if self@.contains_key(key@) {
                spelled_bool(self@[key@])
            } else {
                None
            },
    {
        match self.get(key) {
            Some(v) => parse_bool(v),
            None => None,
        }
    }

    pub fn is_empty(&self) -> (r: bool)
        ensures
            r == (self@ == Map::<Seq<char>, Seq<char>>::empty()),
    {
        let n = self.settings.len();
        proof {
            let empty = Map::<Seq<char>, Seq<char>>::empty();
            if n == 0 {
                assert forall|k: Seq<char>| !self@.contains_key(k) by {
                    assert(self.settings@.contains_key(k) ==> self.settings.names().contains(k));
                }
                assert(self@ =~= empty);
            } else {
                assert(self.settings.names().contains(self.settings.names()[0]));
                assert(self@.contains_key(self.settings.names()[0]));
            }
        }
        n == 0
    }

    /// The settings, in the order of their keys.
    pub fn iter(&self) -> (r: Vec<(&str, &str)>)
        ensures
            crate::names::in_order(r@.map_values(|e: (&str, &str)| e.0@)),
            forall|k: Seq<char>|
                self@.contains_key(k) <==> r@.map_values(|e: (&str, &str)| e.0@).contains(k),
            forall|i: int| 0 <= i < r@.len() ==> self@[(#[trigger] r@[i]).0@] == r@[i].1@,
    {
        let n = self.settings.len();
        let mut out: Vec<(&str, &str)> = Vec::new();
        let mut i: usize = 0;
        while i < n
            invariant
                i <= n,
                n == self.settings.names().len(),
                self.settings.listed(),
                out@.len() == i,
                forall|j: int|
                    0 <= j < i ==> (#[trigger] out@[j]).0@ == self.settings.names()[j] && out@[j].1@
                        == self.settings.values()[j]@,
            decreases n - i,
        {
            let (k, v) = self.settings.entry(i);
            out.push((k, v.as_str()));
            i = i + 1;
        }
        proof {
            let keys = out@.map_values(|e: (&str, &str)| e.0@);
            assert(keys =~= self.settings.names());
            assert forall|j: int| 0 <= j < out@.len() implies self@[(#[trigger] out@[j]).0@]
                == out@[j].1@ by {
                let name = self.settings.names()[j];
                assert(self.settings.names().contains(name));
                assert(self.settings@[name] == self.settings.values()[j]);
            }
        }
        out
    }
}

impl Clone for ConnectionOptions {
    fn clone(&self) -> (r: Self)
        ensures
            r@ == self@,
    {
        let n = self.settings.len();
        let ghost names = self.settings.names();
        let mut out = ConnectionOptions::new();
        let mut i: usize = 0;
        while i < n
            invariant
                i <= n,
                n == names.len(),
                names == self.settings.names(),
                self.settings.listed(),
                forall|k: Seq<char>| out@.contains_key(k) <==> names.take(i as int).contains(k),
                forall|k: Seq<char>| out@.contains_key(k) ==> #[trigger] out@[k] == self@[k],
            decreases n - i,
        {
            let (k, v) = self.settings.entry(i);
            let ghost before = out@;
            let _ = out.set(k, v);
            proof {
                let seen = names.take(i as int);
                let longer = names.take(i + 1);
                assert(longer =~= seen.push(k@));
                assert(names.contains(k@));
                assert(self.settings@[names[i as int]] == self.settings.values()[i as int]);
                assert(self@[k@] == v@);
                assert forall|x: Seq<char>| out@.contains_key(x) <==> longer.contains(x) by {
                    if longer.contains(x) && x != k@ {
                        let j = longer.index_of(x);
                        assert(seen[j] == x);
                    }
                    if seen.contains(x) {
                        let j = seen.index_of(x);
                        assert(longer[j] == x);
                    }
                    assert(longer[i as int] == k@);
                }
            }
            i = i + 1;
        }
        proof {
            assert(names.take(n as int) =~= names);
            assert forall|k: Seq<char>| out@.contains_key(k) == self@.contains_key(k) by {
                assert(self.settings@.contains_key(k) <==> names.contains(k));
            }
            assert(out@ =~= self@);
        }
        out
    }
}

impl Default for ConnectionOptions {
    fn default() -> (r: Self)
        ensures
            r@ == Map::<Seq<char>, Seq<char>>::empty(),
    {
        ConnectionOptions::new()
    }
}

/// What was set is what is read, and nothing else changes: the last value wins.
pub proof fn setting_then_getting(
    options: Map<Seq<char>, Seq<char>>,
    key: Seq<char>,
    value: Seq<char>,
    other: Seq<char>,
)
    ensures
        options.insert(key, value).contains_key(key),
        options.insert(key, value)[key] == value,
        other != key ==> options.insert(key, value).contains_key(other) == options.contains_key(
            other,
        ),
        other != key && options.contains_key(other) ==> options.insert(key, value)[other]
            == options[other],
{
}

// ---------------------------------------------------------------------------
// Credentials
// ---------------------------------------------------------------------------

/// Credentials for a connection attempt.
///
/// Kept apart from the endpoint URI on purpose. Credentials embedded in a URL
/// leak into logs, error messages and rendered output; passing them as a
/// separate value makes that leak a deliberate act rather than an accident.
#[derive(PartialEq, Eq)]
pub struct Credentials {
    pub username: Option<String>,
    pub password: Option<String>,
    /// Protocol-specific authentication realm. For SMB this is the domain or
    /// workgroup. Backends that have no such concept ignore it.
    pub domain: Option<String>,
}

/// [`Credentials`] as texts.
#[verifier::ext_equal]
pub struct CredentialsView {
    pub username: Option<Seq<char>>,
    pub password: Option<Seq<char>>,
    pub domain: Option<Seq<char>>,
}

impl View for Credentials {
    type V = CredentialsView;

    open spec fn view(&self) -> CredentialsView {
        CredentialsView {
            username: text::optional(self.username),
            password: text::optional(self.password),
            domain: text::optional(self.domain),
        }
    }
}

/// What the standard library's `Debug` makes of a string: the string in double
/// quotes, with what cannot stand there escaped.
pub uninterp spec fn debug_quoted(s: Seq<char>) -> Seq<char>;

/// Renders a string through `<str as Debug>::fmt`, by way of `format!`.
///
/// The result is named rather than stated: which characters are escaped, and
/// how, follows the standard library's tables.
#[verifier::external_body]
fn quoted(s: &str) -> (r: String)
    ensures
        r@ == debug_quoted(s@),
{
    format!("{:?}", s)
}

/// How an optional part reads, given how its value reads.
pub open spec fn optional_form(value: Option<Seq<char>>) -> Seq<char> {
    match value {
        Some(v) => "Some("@ + v + ")"@,
        None => "None"@,
    }
}

/// How credentials read in a log line, given how the user and the domain read.
/// A password shows only by its presence.
pub open spec fn redacted_form(
    username: Option<Seq<char>>,
    has_password: bool,
    domain: Option<Seq<char>>,
) -> Seq<char> {
    "Credentials { username: "@ + optional_form(username) + ", password: "@ + (if has_password {
        "Some(\"<redacted>\")"@
    } else {
        "None"@
    }) + ", domain: "@ + optional_form(domain) + " }"@
}

/// How credentials read in a log line.
pub open spec fn logged(c: CredentialsView) -> Seq<char> {
    redacted_form(
        match c.username {
            Some(u) => Some(debug_quoted(u)),
            None => None,
        },
        c.password is Some,
        match c.domain {
            Some(d) => Some(debug_quoted(d)),
            None => None,
        },
    )
}

fn append_optional(out: &mut String, value: Option<&str>)
    ensures
        final(out)@ == old(out)@ + optional_form(
            match value {
                Some(v) => Some(v@),
                None => None,
            },
        ),
{
    match value {
        Some(v) => {
            out.append("Some(");
            out.append(v);
            out.append(")");
            assert(out@ =~= old(out)@ + ("Some("@ + v@ + ")"@));
        },
        None => {
            out.append("None");
        },
    }
}

/// Renders credentials from their rendered parts, without the password.
pub fn redacted(username: Option<&str>, has_password: bool, domain: Option<&str>) -> (r: String)
    ensures
        r@ == redacted_form(
            match username {
                Some(v) => Some(v@),
                None => None,
            },
            has_password,
            match domain {
                Some(v) => Some(v@),
                None => None,
            },
        ),
{
    let mut out = "Credentials { username: ".to_owned();
    append_optional(&mut out, username);
    out.append(", password: ");
    if has_password {
        out.append("Some(\"<redacted>\")");
    } else {
        out.append("None");
    }
    out.append(", domain: ");
    append_optional(&mut out, domain);
    out.append(" }");
    out
}

impl Credentials {
    /// Credentials for an anonymous / guest connection.
    pub fn anonymous() -> (r: Self)
        ensures
            r@ == (CredentialsView { username: None, password: None, domain: None }),
    {
        Credentials { username: None, password: None, domain: None }
    }

    pub fn user_password(username: &str, password: &str) -> (r: Self)
        ensures
            r@ == (CredentialsView {
                username: Some(username@),
                password: Some(password@),
                domain: None,
            }),
    {
        Credentials {
            username: Some(username.to_owned()),
            password: Some(password.to_owned()),
            domain: None,
        }
    }

    pub fn with_domain(self, domain: &str) -> (r: Self)
        ensures
            r@ == (CredentialsView { domain: Some(domain@), ..self@ }),
    {
        Credentials { domain: Some(domain.to_owned()), ..self }
    }

    /// How the credentials read in a log line or a panic message: never with
    /// the password, not even by accident.
    pub fn debug_text(&self) -> (r: String)
        ensures
            r@ == logged(self@),
    {
        let username = match &self.username {
            Some(u) => Some(quoted(u)),
            None => None,
        };
        let domain = match &self.domain {
            Some(d) => Some(quoted(d)),
            None => None,
        };
        redacted(
            match &username {
                Some(u) => Some(u.as_str()),
                None => None,
            },
            self.password.is_some(),
            match &domain {
                Some(d) => Some(d.as_str()),
                None => None,
            },
        )
    }
}

impl Clone for Credentials {
    fn clone(&self) -> (r: Self)
        ensures
            r@ == self@,
    {
        Credentials {
            username: text::cloned_optional(&self.username),
            password: text::cloned_optional(&self.password),
            domain: text::cloned_optional(&self.domain),
        }
    }
}

impl Default for Credentials {
    fn default() -> (r: Self)
        ensures
            r@ == (CredentialsView { username: None, password: None, domain: None }),
    {
        Credentials::anonymous()
    }
}

/// Credentials that differ in nothing but the password read the same, so the
/// rendering cannot reveal it.
pub proof fn the_rendering_does_not_depend_on_the_password(a: CredentialsView, b: CredentialsView)
    requires
        a.username == b.username,
        a.domain == b.domain,
        a.password is Some == b.password is Some,
    ensures
        logged(a) == logged(b),
{
}

// ---------------------------------------------------------------------------
// Drivers
// ---------------------------------------------------------------------------

/// Opens sessions for one URI scheme.
///
/// A driver is the only thing a new protocol needs to add: implement this, hand
/// it to [`BackendRegistry::register`], and the scheme becomes reachable
/// everywhere.
pub trait BackendDriver {
    /// The scheme's text. An implementation that does not say leaves it open.
    closed spec fn scheme_text(&self) -> Seq<char> {
        arbitrary()
    }

    /// The URI scheme this driver handles, lowercase and without `://`.
    fn scheme(&self) -> (r: &'static str)
        ensures
            r@ == self.scheme_text(),
    ;

    /// A short human-readable description, for help output and error messages
    /// that list what is available.
    fn description(&self) -> (r: &'static str)
        default_ensures
            r@ == ""@,
    {
        ""
    }
}

impl<T: BackendDriver + ?Sized> BackendDriver for Box<T> {
    open spec fn scheme_text(&self) -> Seq<char> {
        (**self).scheme_text()
    }

    fn scheme(&self) -> (r: &'static str) {
        (**self).scheme()
    }

    fn description(&self) -> (r: &'static str)
        ensures
            call_ensures(T::description, (&**self,), r),
    {
        (**self).description()
    }
}

/// Maps URI schemes to drivers.
///
/// Deliberately a plain registry rather than anything cleverer: the set of
/// protocols is tiny, lookup happens once per connection, and the failure mode
/// stays obvious ("no driver for this scheme").
pub struct BackendRegistry<D> {
    drivers: NameMap<D>,
    /// Every driver that was registered, with its scheme, in order.
    registered: Ghost<Seq<(Seq<char>, D)>>,
}

impl<D> View for BackendRegistry<D> {
    type V = Map<Seq<char>, D>;

    /// The driver behind each scheme.
    closed spec fn view(&self) -> Map<Seq<char>, D> {
        self.drivers@
    }
}

/// What a registry holds after these drivers were registered in order, each for
/// the scheme beside it.
pub open spec fn registrations<D>(drivers: Seq<(Seq<char>, D)>) -> Map<Seq<char>, D>
    decreases drivers.len(),
{
    if drivers.len() == 0 {
        Map::empty()
    } else {
        registrations(drivers.drop_last()).insert(
            text::lowered(drivers.last().0),
            drivers.last().1,
        )
    }
}

impl<D> BackendRegistry<D> {
    #[verifier::type_invariant]
    closed spec fn inv(self) -> bool {
        self.drivers@ == registrations(self.registered@)
    }

    /// Every driver that was registered, with its scheme as it spells it, in
    /// order: displaced ones too.
    pub closed spec fn registered(&self) -> Seq<(Seq<char>, D)> {
        self.registered@
    }
}

impl<D: BackendDriver> BackendRegistry<D> {
    pub fn new() -> (r: Self)
        ensures
            r@ == Map::<Seq<char>, D>::empty(),
            r.registered() == Seq::<(Seq<char>, D)>::empty(),
    {
        BackendRegistry { drivers: NameMap::new(), registered: Ghost(Seq::empty()) }
    }

    /// Register a driver, returning any previously registered driver for the
    /// same scheme. A driver registered later wins; the displaced one is
    /// returned rather than dropped silently, so a caller can notice a
    /// conflict.
    pub fn register(&mut self, driver: D) -> (r: Option<D>)
        ensures
            final(self)@ == old(self)@.insert(text::lowered(driver.scheme_text()), driver),
            final(self).registered() == old(self).registered().push((driver.scheme_text(), driver)),
            r == if old(self)@.contains_key(text::lowered(driver.scheme_text())) {
                Some(old(self)@[text::lowered(driver.scheme_text())])
            } else {
                None
            },
    {
        let scheme = text::lower(driver.scheme());
        proof {
            use_type_invariant(&*self);
        }
        let ghost registered = self.registered@.push((driver.scheme_text(), driver));
        assert(registered.drop_last() =~= self.registered@);
        let mut after = BackendRegistry::new();
        std::mem::swap(self, &mut after);
        let BackendRegistry { mut drivers, .. } = after;
        let displaced = drivers.insert(scheme, driver);
        *self = BackendRegistry { drivers, registered: Ghost(registered) };
        displaced
    }

    /// The driver for a scheme, whatever its case.
    pub fn driver_for(&self, scheme: &str) -> (r: Option<&D>)
        ensures
            match r {
                Some(d) => self@.contains_key(text::lowered(scheme@)) && *d == self@[text::lowered(
                    scheme@,
                )],
                None => !self@.contains_key(text::lowered(scheme@)),
            },
    {
        self.drivers.get(&text::lower(scheme))
    }

    /// Registered schemes, sorted, for diagnostics: each in small letters, and
    /// once, however often and however spelled it was registered.
    pub fn schemes(&self) -> (r: Vec<&str>)
        ensures
            crate::names::in_order(r@.map_values(|s: &str| s@)),
            forall|k: Seq<char>|
                self@.contains_key(k) <==> r@.map_values(|s: &str| s@).contains(k),
            r@.len() == self@.len(),
            forall|i: int| 0 <= i < r@.len() ==> text::lowered((#[trigger] r@[i])@) == r@[i]@,
            forall|k: Seq<char>| #[trigger]
                self@.contains_key(k) <==> exists|i: int|
                    0 <= i < self.registered().len() && k == text::lowered(
                        (#[trigger] self.registered()[i]).0,
                    ),
    {
        proof {
            use_type_invariant(self);
            the_schemes_are_those_registered(self.registered@);
        }
        let n = self.drivers.len();
        let mut out: Vec<&str> = Vec::new();
        let mut i: usize = 0;
        while i < n
            invariant
                i <= n,
                n == self.drivers.names().len(),
                out@.len() == i,
                forall|j: int| 0 <= j < i ==> (#[trigger] out@[j])@ == self.drivers.names()[j],
            decreases n - i,
        {
            let (scheme, _) = self.drivers.entry(i);
            out.push(scheme);
            i = i + 1;
        }
        assert(out@.map_values(|s: &str| s@) =~= self.drivers.names());
        assert forall|j: int| 0 <= j < out@.len() implies text::lowered((#[trigger] out@[j])@)
            == out@[j]@ by {
            assert(self.drivers.names().contains(self.drivers.names()[j]));
        }
        assert(self.registered() == self.registered@);
        assert(self@ == registrations(self.registered()));
        out
    }

    pub fn is_empty(&self) -> (r: bool)
        ensures
            r == (self@.len() == 0),
    {
        self.drivers.len() == 0
    }

    pub fn len(&self) -> (r: usize)
        ensures
            r == self@.len(),
            self@.dom().finite(),
    {
        self.drivers.len()
    }

    /// Where connecting to `uri` leads: the parsed endpoint and the driver for
    /// its scheme.
    pub fn route(&self, uri: &str) -> (r: Result<(Endpoint, &D), Error>)
        ensures
            match endpoint_fault(uri@) {
                Some(reason) => r matches Err(e) && e@ == (ErrorView::InvalidPath {
                    path: uri@,
                    reason,
                }),
                None => if self@.contains_key(endpoint_of(uri@).scheme) {
                    r matches Ok((endpoint, driver)) && endpoint@ == endpoint_of(uri@) && *driver
                        == self@[endpoint_of(uri@).scheme]
                } else {
                    r matches Err(e) && e@ == (ErrorView::Unsupported {
                        operation: "connect: no driver registered for this scheme"@,
                    })
                },
            },
    {
        let endpoint = match Endpoint::parse(uri) {
            Ok(endpoint) => endpoint,
            Err(e) => {
                return Err(e);
            },
        };
        match self.drivers.get(endpoint.scheme()) {
            Some(driver) => Ok((endpoint, driver)),
            None => Err(
                Error::Unsupported { operation: "connect: no driver registered for this scheme" },
            ),
        }
    }
}

impl<D: BackendDriver> Default for BackendRegistry<D> {
    fn default() -> (r: Self)
        ensures
            r@ == Map::<Seq<char>, D>::empty(),
    {
        BackendRegistry::new()
    }
}

/// A registry lists exactly the schemes of the drivers that were registered,
/// each in small letters, and the driver behind a scheme is the last one that
/// was registered for it.
pub proof fn the_schemes_are_those_registered<D>(drivers: Seq<(Seq<char>, D)>)
    ensures
        forall|k: Seq<char>| #[trigger]
            registrations(drivers).contains_key(k) <==> exists|i: int|
                0 <= i < drivers.len() && k == text::lowered((#[trigger] drivers[i]).0),
        forall|k: Seq<char>| #[trigger]
            registrations(drivers).contains_key(k) ==> text::lowered(k) == k,
        forall|i: int|
            0 <= i < drivers.len() && (forall|j: int|
                i < j < drivers.len() ==> text::lowered((#[trigger] drivers[j]).0)
                    != text::lowered(drivers[i].0)) ==> registrations(
                drivers,
            )[text::lowered((#[trigger] drivers[i]).0)] == drivers[i].1,
    decreases drivers.len(),
{
    if drivers.len() > 0 {
        let earlier = drivers.drop_last();
        let last = drivers.last();
        the_schemes_are_those_registered(earlier);
        text::lowering_is_idempotent(last.0);
        assert forall|k: Seq<char>| #[trigger] registrations(drivers).contains_key(k) <==> exists|
            i: int,
        |
            0 <= i < drivers.len() && k == text::lowered((#[trigger] drivers[i]).0) by {
            if registrations(earlier).contains_key(k) {
                let i = choose|i: int|
                    0 <= i < earlier.len() && k == text::lowered((#[trigger] earlier[i]).0);
                assert(drivers[i] == earlier[i]);
                assert(k == text::lowered(drivers[i].0));
            } else if k == text::lowered(last.0) {
                assert(drivers[drivers.len() - 1] == last);
                assert(k == text::lowered(drivers[drivers.len() - 1].0));
            }
            if exists|i: int|
                0 <= i < drivers.len() && k == text::lowered((#[trigger] drivers[i]).0) {
                let i = choose|i: int|
                    0 <= i < drivers.len() && k == text::lowered((#[trigger] drivers[i]).0);
                if i < earlier.len() {
                    assert(earlier[i] == drivers[i]);
                    assert(k == text::lowered(earlier[i].0));
                }
            }
        }
        assert forall|i: int|
            0 <= i < drivers.len() && (forall|j: int|
                i < j < drivers.len() ==> text::lowered((#[trigger] drivers[j]).0)
                    != text::lowered(drivers[i].0)) implies registrations(
            drivers,
        )[text::lowered((#[trigger] drivers[i]).0)] == drivers[i].1 by {
            if i < earlier.len() {
                assert(earlier[i] == drivers[i]);
                assert(text::lowered(drivers[earlier.len() as int].0)
                    != text::lowered(drivers[i].0));
                assert forall|j: int| i < j < earlier.len() implies text::lowered(
                    (#[trigger] earlier[j]).0,
                ) != text::lowered(earlier[i].0) by {
                    assert(earlier[j] == drivers[j]);
                    assert(text::lowered(drivers[j].0) != text::lowered(drivers[i].0));
                }
            }
        }
    }
}

/// A registered driver is found under its scheme in any case, and the other
/// schemes keep their drivers.
pub proof fn a_registered_driver_is_found<D: BackendDriver>(
    registry: Map<Seq<char>, D>,
    driver: D,
    asked: Seq<char>,
)
    ensures
        text::lowered(asked) == text::lowered(driver.scheme_text()) ==> registry.insert(
            text::lowered(driver.scheme_text()),
            driver,
        )[text::lowered(asked)] == driver,
        text::lowered(asked) != text::lowered(driver.scheme_text()) && registry.contains_key(
            text::lowered(asked),
        ) ==> registry.insert(text::lowered(driver.scheme_text()), driver)[text::lowered(asked)]
            == registry[text::lowered(asked)],
{
}

// ---------------------------------------------------------------------------
// Laws of what callers do
// ---------------------------------------------------------------------------

/// A URI that was put together from a scheme and the rest is taken apart into
/// them, with the scheme in small letters, and is kept as it was given.
pub proof fn parsing_undoes_putting_together(
    scheme: Seq<char>,
    rest: Seq<char>,
    uri: &str,
    r: Result<Endpoint, Error>,
    s: &str,
    a: &str,
    whole: &str,
)
    requires
        uri@ == scheme + "://"@ + rest,
        is_scheme(scheme),
        call_ensures(Endpoint::parse, (uri,), r),
        r matches Ok(e) ==> call_ensures(Endpoint::scheme, (&e,), s) && call_ensures(
            Endpoint::authority_and_path,
            (&e,),
            a,
        ) && call_ensures(Endpoint::as_str, (&e,), whole),
    ensures
        r is Ok,
        s@ == text::lowered(scheme),
        a@ == rest,
        whole@ == uri@,
{
    reveal_strlit("://");
    let pat = "://"@;
    let n = scheme.len() as int;
    text::first_from_is_first(uri@, pat, 0);
    assert(uri@.subrange(n, n + 3) =~= pat);
    assert(text::occurs_at(uri@, pat, n));
    let k = text::first_at(uri@, pat)->0;
    if k < n {
        assert(uri@.subrange(k, k + 3)[0] == pat[0]);
        assert(uri@[k] == scheme[k]);
        assert(is_scheme_char(scheme[k]));
    }
    assert(uri@.take(n) =~= scheme);
    assert(uri@.skip(n + 3) =~= rest);
}

/// Letters, digits, `+`, `-` and `.` make up a scheme, and nothing else does. A
/// URI without `://`, or with anything else before it, is refused as it is.
pub proof fn a_uri_needs_a_scheme(uri: &str, r: Result<Endpoint, Error>)
    requires
        call_ensures(Endpoint::parse, (uri,), r),
    ensures
        (forall|i: int|
            0 <= i && i + 3 <= uri@.len() ==> #[trigger] uri@.subrange(i, i + 3) != "://"@) ==> r
            is Err,
        uri@.len() >= 3 && uri@.take(3) == "://"@ ==> r is Err,
        r matches Ok(e) ==> e@.scheme.len() > 0 && e@.raw == uri@ && forall|i: int|
            0 <= i < e@.scheme.len() ==> ('a' <= #[trigger] e@.scheme[i] <= 'z' || '0'
                <= e@.scheme[i] <= '9' || e@.scheme[i] == '+' || e@.scheme[i] == '-'
                || e@.scheme[i] == '.'),
        r matches Err(e) ==> (e@ matches ErrorView::InvalidPath { path, .. } && path == uri@),
{
    reveal_strlit("://");
    let pat = "://"@;
    text::first_from_is_first(uri@, pat, 0);
    if let Some(k) = text::first_at(uri@, pat) {
        assert(uri@.subrange(k, k + 3) == pat);
        if uri@.take(3) == pat {
            assert(uri@.subrange(0, 3) =~= uri@.take(3));
            assert(text::occurs_at(uri@, pat, 0));
            assert(uri@.take(0).len() == 0);
        }
        let scheme = uri@.take(k);
        if is_scheme(scheme) {
            assert forall|i: int| 0 <= i < scheme.len() implies ('a' <= #[trigger] text::lowered(
                scheme,
            )[i] <= 'z' || '0' <= text::lowered(scheme)[i] <= '9' || text::lowered(scheme)[i]
                == '+' || text::lowered(scheme)[i] == '-' || text::lowered(scheme)[i] == '.') by {
                assert(is_scheme_char(scheme[i]));
            }
        }
    }
}

/// A boolean is read from one of eight words, whatever their case and the white
/// space around them, and from nothing else: a typo is never read as `false`.
pub proof fn eight_words_spell_a_boolean(
    value: &str,
    bare: String,
    bare_text: &str,
    word: String,
    r: Option<bool>,
)
    requires
        call_ensures(text::trim, (value,), bare),
        bare_text@ == bare@,
        call_ensures(text::lower, (bare_text,), word),
        call_ensures(parse_bool, (value,), r),
    ensures
        word@ == "1"@ || word@ == "true"@ || word@ == "yes"@ || word@ == "on"@ <==> r == Some(true),
        word@ == "0"@ || word@ == "false"@ || word@ == "no"@ || word@ == "off"@ <==> r == Some(
            false,
        ),
{
    reveal_strlit("1");
    reveal_strlit("true");
    reveal_strlit("yes");
    reveal_strlit("on");
    reveal_strlit("0");
    reveal_strlit("false");
    reveal_strlit("no");
    reveal_strlit("off");
    assert("1"@[0] == '1' && "true"@[0] == 't' && "yes"@[0] == 'y' && "on"@[1] == 'n');
    assert("0"@[0] == '0' && "false"@[0] == 'f' && "no"@[0] == 'n' && "off"@[1] == 'f');
}

/// What was set is what is got, as it was set; every other setting stays. A
/// setting is read as a boolean where it spells one.
pub proof fn what_is_set_is_got(
    options: ConnectionOptions,
    key: &str,
    value: &str,
    more: ConnectionOptions,
    asked: &str,
    before: Option<&str>,
    after: Option<&str>,
    flag: Option<bool>,
    spelled: Option<bool>,
)
    requires
        call_ensures(ConnectionOptions::with, (options, key, value), more),
        call_ensures(ConnectionOptions::get, (&options, asked), before),
        call_ensures(ConnectionOptions::get, (&more, asked), after),
        call_ensures(ConnectionOptions::get_bool, (&more, key), flag),
        call_ensures(parse_bool, (value,), spelled),
    ensures
        asked@ == key@ ==> after is Some && after->0@ == value@,
        asked@ != key@ ==> after is Some == before is Some,
        asked@ != key@ && after is Some ==> after->0@ == before->0@,
        flag == spelled,
{
}

/// Nothing is set to begin with.
pub proof fn nothing_is_set_at_first(
    options: ConnectionOptions,
    empty: bool,
    key: &str,
    value: Option<&str>,
    flag: Option<bool>,
)
    requires
        call_ensures(ConnectionOptions::new, (), options),
        call_ensures(ConnectionOptions::is_empty, (&options,), empty),
        call_ensures(ConnectionOptions::get, (&options, key), value),
        call_ensures(ConnectionOptions::get_bool, (&options, key), flag),
    ensures
        empty,
        value is None,
        flag is None,
{
}

/// Credentials hold what they were made of, each part as itself.
pub proof fn credentials_hold_what_they_were_made_of(
    guest: Credentials,
    user: &str,
    password: &str,
    plain: Credentials,
    any: Credentials,
    domain: &str,
    with: Credentials,
    copy: Credentials,
)
    requires
        call_ensures(Credentials::anonymous, (), guest),
        call_ensures(Credentials::user_password, (user, password), plain),
        call_ensures(Credentials::with_domain, (any, domain), with),
        call_ensures(<Credentials as Clone>::clone, (&any,), copy),
    ensures
        guest.username is None && guest.password is None && guest.domain is None,
        plain.username is Some && plain.username->0@ == user@,
        plain.password is Some && plain.password->0@ == password@,
        plain.domain is None,
        with.domain is Some && with.domain->0@ == domain@,
        text::optional(with.username) == text::optional(any.username),
        text::optional(with.password) == text::optional(any.password),
        text::optional(copy.username) == text::optional(any.username),
        text::optional(copy.password) == text::optional(any.password),
        text::optional(copy.domain) == text::optional(any.domain),
{
}

/// A log line shows the user and the domain as they read, and of a password only
/// that there is one.
pub proof fn a_log_line_shows_all_but_the_password(
    username: Option<&str>,
    has_password: bool,
    domain: Option<&str>,
    r: String,
)
    requires
        call_ensures(redacted, (username, has_password, domain), r),
    ensures
        r@ == "Credentials { username: "@ + (match username {
            Some(u) => "Some("@ + u@ + ")"@,
            None => "None"@,
        }) + ", password: "@ + (if has_password {
            "Some(\"<redacted>\")"@
        } else {
            "None"@
        }) + ", domain: "@ + (match domain {
            Some(d) => "Some("@ + d@ + ")"@,
            None => "None"@,
        }) + " }"@,
{
}

/// A registry hands back the driver that was registered last for a scheme,
/// whatever the case it is asked in, and registering disturbs no other scheme.
pub proof fn the_driver_registered_last_is_found<D: BackendDriver>(
    registry: &mut BackendRegistry<D>,
    driver: D,
    displaced: Option<D>,
    asked: &str,
    before: Option<&D>,
    after: Option<&D>,
)
    requires
        call_ensures(BackendRegistry::<D>::register, (registry, driver), displaced),
        call_ensures(BackendRegistry::<D>::driver_for, (old(registry), asked), before),
        call_ensures(BackendRegistry::<D>::driver_for, (final(registry), asked), after),
    ensures
        text::lowered(asked@) == text::lowered(driver.scheme_text()) ==> {
            &&& after is Some && *after->0 == driver
            &&& displaced is Some == before is Some
            &&& displaced is Some ==> displaced->0 == *before->0
        },
        text::lowered(asked@) != text::lowered(driver.scheme_text()) ==> {
            &&& after is Some == before is Some
            &&& after is Some ==> *after->0 == *before->0
        },
{
}

/// A URI leads to the driver for its scheme, with the endpoint it names; a scheme
/// without a driver is unsupported.
pub proof fn a_uri_leads_to_the_driver_for_its_scheme<D: BackendDriver>(
    registry: BackendRegistry<D>,
    uri: &str,
    parsed: Result<Endpoint, Error>,
    scheme: &str,
    driver: Option<&D>,
    r: Result<(Endpoint, &D), Error>,
)
    requires
        call_ensures(Endpoint::parse, (uri,), parsed),
        parsed matches Ok(e) ==> scheme@ == e@.scheme,
        call_ensures(BackendRegistry::<D>::driver_for, (&registry, scheme), driver),
        call_ensures(BackendRegistry::<D>::route, (&registry, uri), r),
    ensures
        parsed is Err ==> r is Err && r->Err_0@ == parsed->Err_0@,
        parsed is Ok && driver is None ==> r is Err && r->Err_0@ is Unsupported,
        parsed is Ok && driver is Some ==> r is Ok && r->Ok_0.0@ == parsed->Ok_0@ && *r->Ok_0.1
            == *driver->0,
{
    if endpoint_fault(uri@) is None {
        text::lowering_is_idempotent((text::cut(uri@, "://"@)->0).0);
    }
}

/// A log line shows the user and the domain of the credentials it is about, quoted,
/// each in its own place.
pub proof fn a_log_line_shows_whose_credentials_they_are(c: Credentials, r: String)
    requires
        call_ensures(Credentials::debug_text, (&c,), r),
    ensures
        r@ == "Credentials { username: "@ + (match c.username {
            Some(u) => "Some("@ + debug_quoted(u@) + ")"@,
            None => "None"@,
        }) + ", password: "@ + (if c.password is Some {
            "Some(\"<redacted>\")"@
        } else {
            "None"@
        }) + ", domain: "@ + (match c.domain {
            Some(d) => "Some("@ + debug_quoted(d@) + ")"@,
            None => "None"@,
        }) + " }"@,
{
}

/// A registry lists its schemes in order, in small letters and each once, and
/// counts them.
pub proof fn a_registry_lists_its_schemes_once<D: BackendDriver>(
    registry: BackendRegistry<D>,
    r: Vec<&str>,
    n: usize,
    empty: bool,
    asked: &str,
    found: Option<&D>,
)
    requires
        call_ensures(BackendRegistry::<D>::schemes, (&registry,), r),
        call_ensures(BackendRegistry::<D>::len, (&registry,), n),
        call_ensures(BackendRegistry::<D>::is_empty, (&registry,), empty),
        call_ensures(BackendRegistry::<D>::driver_for, (&registry, asked), found),
    ensures
        r@.len() == n,
        empty <==> n == 0,
        forall|i: int, j: int|
            0 <= i < j < r@.len() ==> text::text_before((#[trigger] r@[i])@, (#[trigger] r@[j])@),
        forall|i: int| 0 <= i < r@.len() ==> text::lowered((#[trigger] r@[i])@) == r@[i]@,
        found is Some <==> r@.map_values(|s: &str| s@).contains(text::lowered(asked@)),
{
    let names = r@.map_values(|s: &str| s@);
    assert forall|i: int, j: int| 0 <= i < j < r@.len() implies text::text_before(
        (#[trigger] r@[i])@,
        (#[trigger] r@[j])@,
    ) by {
        assert(names[i] == r@[i]@ && names[j] == r@[j]@);
    }
}

/// Listing the settings gives each of them once, in the order of their keys, with
/// the value that it has; a copy of the settings has the same ones.
pub proof fn settings_are_listed_as_they_are(
    options: ConnectionOptions,
    r: Vec<(&str, &str)>,
    i: int,
    asked: &str,
    got: Option<&str>,
    copy: ConnectionOptions,
    from_copy: Option<&str>,
)
    requires
        call_ensures(ConnectionOptions::iter, (&options,), r),
        0 <= i < r@.len(),
        asked@ == r@[i].0@,
        call_ensures(ConnectionOptions::get, (&options, asked), got),
        call_ensures(<ConnectionOptions as Clone>::clone, (&options,), copy),
        call_ensures(ConnectionOptions::get, (&copy, asked), from_copy),
    ensures
        got is Some && got->0@ == r@[i].1@,
        from_copy is Some && from_copy->0@ == got->0@,
        forall|j: int, k: int|
            0 <= j < k < r@.len() ==> text::text_before(
                (#[trigger] r@[j]).0@,
                (#[trigger] r@[k]).0@,
            ),
{
    let keys = r@.map_values(|e: (&str, &str)| e.0@);
    assert(keys[i] == r@[i].0@);
    assert(keys.contains(keys[i]));
    assert forall|j: int, k: int| 0 <= j < k < r@.len() implies text::text_before(
        (#[trigger] r@[j]).0@,
        (#[trigger] r@[k]).0@,
    ) by {
        assert(keys[j] == r@[j].0@ && keys[k] == r@[k].0@);
    }
}

} // verus!
