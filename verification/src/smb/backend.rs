//! SMB endpoints, and what connecting to one asks for.

use vstd::prelude::*;
use crate::backend::StorageBackend;
use crate::capabilities::Capabilities;
use crate::error::{Error, ErrorView};
use crate::registry::{self, BackendDriver, ConnectionOptions, Credentials, CredentialsView, Endpoint};
use crate::smb::actor::SmbInfo;
use crate::text;

verus! {

/// Default per-operation timeout, in seconds.
///
/// A media player wants to give up on an unreachable share and tell the user
/// rather than appear to hang. Because operations are serialised on the session
/// thread, this is also the worst-case time any queued operation waits behind a
/// stuck one.
pub const DEFAULT_TIMEOUT_SECS: u32 = 20;

/// The option that requests SMB3 encryption. Off unless set: encryption is a
/// trade of throughput for secrecy that the caller has to ask for.
pub const OPT_SEAL: &'static str = "smb.seal";

/// An SMB endpoint split into its parts: `[domain;][user@]server/share`.
///
/// Parsing it here keeps the share concept on this side of the abstraction
/// boundary.
#[derive(Debug, PartialEq, Eq)]
pub struct ParsedEndpoint {
    pub server: String,
    pub share: String,
    /// User named in the URI. Credentials passed separately take precedence.
    pub user: Option<String>,
    pub domain: Option<String>,
}

/// A [`ParsedEndpoint`] as texts.
#[verifier::ext_equal]
pub struct ParsedView {
    pub server: Seq<char>,
    pub share: Seq<char>,
    pub user: Option<Seq<char>>,
    pub domain: Option<Seq<char>>,
}

impl View for ParsedEndpoint {
    type V = ParsedView;

    open spec fn view(&self) -> ParsedView {
        ParsedView {
            server: self.server@,
            share: self.share@,
            user: text::optional(self.user),
            domain: text::optional(self.domain),
        }
    }
}

/// What stands before the first `sep`, if there is one, and the rest.
pub open spec fn leading(s: Seq<char>, sep: Seq<char>) -> (Option<Seq<char>>, Seq<char>) {
    match text::cut(s, sep) {
        Some((a, b)) => (Some(a), b),
        None => (None, s),
    }
}

/// A part that counts only where it is not empty.
pub open spec fn unless_empty(s: Option<Seq<char>>) -> Option<Seq<char>> {
    match s {
        Some(v) => if v.len() == 0 {
            None
        } else {
            Some(v)
        },
        None => None,
    }
}

/// The first component of a path without a leading `/`.
pub open spec fn first_component(s: Seq<char>) -> Seq<char> {
    match text::cut(s, "/"@) {
        Some((a, _)) => a,
        None => s,
    }
}

/// The parts of an SMB endpoint, or what is wrong with it.
pub open spec fn parts_of(s: Seq<char>) -> Result<ParsedView, Seq<char>> {
    match text::cut(s, "/"@) {
        None => Err("an SMB endpoint must name a share, e.g. `smb://host/share`"@),
        Some((authority, rest)) => {
            let share = first_component(rest);
            let (domain, after_domain) = leading(authority, ";"@);
            let (user, server) = leading(after_domain, "@"@);
            if share.len() == 0 {
                Err("the share name is empty"@)
            } else if server.len() == 0 {
                Err("the server name is empty"@)
            } else {
                Ok(
                    ParsedView {
                        server,
                        share,
                        user: unless_empty(user),
                        domain: unless_empty(domain),
                    },
                )
            }
        },
    }
}

fn split_leading(s: &str, sep: &str) -> (r: (Option<String>, String))
    ensures
        (text::optional(r.0), r.1@) == leading(s@, sep@),
{
    match text::split_once(s, sep) {
        Some((a, b)) => (Some(a), b),
        None => (None, s.to_owned()),
    }
}

fn drop_empty(s: Option<String>) -> (r: Option<String>)
    ensures
        text::optional(r) == unless_empty(text::optional(s)),
{
    match s {
        Some(v) => if text::is_empty(&v) {
            None
        } else {
            Some(v)
        },
        None => None,
    }
}

impl ParsedEndpoint {
    pub fn parse(authority_and_path: &str) -> (r: Result<Self, Error>)
        ensures
            match parts_of(authority_and_path@) {
                Ok(v) => r matches Ok(parsed) && parsed@ == v,
                Err(reason) => r matches Err(e) && e@ == (ErrorView::InvalidPath {
                    path: authority_and_path@,
                    reason,
                }),
            },
    {
        let (authority, rest) = match text::split_once(authority_and_path, "/") {
            Some(parts) => parts,
            None => {
                return Err(
                    Error::invalid_path(
                        authority_and_path,
                        "an SMB endpoint must name a share, e.g. `smb://host/share`",
                    ),
                );
            },
        };
        // A share is the first component after the host; anything beyond it is
        // a path within the share, which the backend addresses separately.
        //
        // The emptiness check has to come *after* taking that component: for
        // `smb://host//x` the remainder is `/x`, which is not empty but whose
        // first component is.
        let share = match text::split_once(&rest, "/") {
            Some((first, _)) => first,
            None => rest,
        };
        if text::is_empty(&share) {
            return Err(Error::invalid_path(authority_and_path, "the share name is empty"));
        }
        let (domain, after_domain) = split_leading(&authority, ";");
        let (user, server) = split_leading(&after_domain, "@");
        if text::is_empty(&server) {
            return Err(Error::invalid_path(authority_and_path, "the server name is empty"));
        }
        Ok(ParsedEndpoint { server, share, user: drop_empty(user), domain: drop_empty(domain) })
    }

    /// Canonical endpoint string, without a trailing slash, for attaching a
    /// path to. Credentials are deliberately not part of it: it ends up in log
    /// lines and error messages.
    pub fn label(&self) -> (r: String)
        ensures
            r@ == label_of(self@),
    {
        let mut out = text::joined("smb://", &self.server);
        out.append("/");
        out.append(&self.share);
        out
    }
}

/// The canonical text of an endpoint.
pub open spec fn label_of(parsed: ParsedView) -> Seq<char> {
    "smb://"@ + parsed.server + "/"@ + parsed.share
}

/// Two endpoints that differ only in the user and the domain have the same
/// label, so the label reveals neither.
pub proof fn the_label_reveals_no_credentials(a: ParsedView, b: ParsedView)
    requires
        a.server == b.server,
        a.share == b.share,
    ensures
        label_of(a) == label_of(b),
{
}

/// Everything needed to open a session.
pub struct ConnectConfig {
    pub server: String,
    pub share: String,
    pub user: Option<String>,
    pub password: Option<String>,
    pub domain: Option<String>,
    /// Request SMB3 encryption. Must be set before connecting: it is negotiated
    /// during the handshake.
    pub seal: bool,
    pub timeout_secs: u32,
    /// The endpoint, for error messages.
    pub label: String,
}

/// A [`ConnectConfig`] with texts.
#[verifier::ext_equal]
pub struct ConnectView {
    pub server: Seq<char>,
    pub share: Seq<char>,
    pub user: Option<Seq<char>>,
    pub password: Option<Seq<char>>,
    pub domain: Option<Seq<char>>,
    pub seal: bool,
    pub timeout_secs: u32,
    pub label: Seq<char>,
}

impl View for ConnectConfig {
    type V = ConnectView;

    open spec fn view(&self) -> ConnectView {
        ConnectView {
            server: self.server@,
            share: self.share@,
            user: text::optional(self.user),
            password: text::optional(self.password),
            domain: text::optional(self.domain),
            seal: self.seal,
            timeout_secs: self.timeout_secs,
            label: self.label@,
        }
    }
}

/// The first of two, where it is there.
pub open spec fn first_of(a: Option<Seq<char>>, b: Option<Seq<char>>) -> Option<Seq<char>> {
    if a is Some {
        a
    } else {
        b
    }
}

/// Whether options ask for SMB3 encryption: only a setting that spells "true".
pub open spec fn asks_for_seal(options: Map<Seq<char>, Seq<char>>) -> bool {
    options.contains_key("smb.seal"@) && registry::spelled_bool(options["smb.seal"@]) == Some(true)
}

/// What connecting to a parsed endpoint asks for. Credentials passed explicitly
/// win over anything embedded in the URI.
pub open spec fn config_of(
    parsed: ParsedView,
    credentials: CredentialsView,
    options: Map<Seq<char>, Seq<char>>,
) -> ConnectView {
    ConnectView {
        server: parsed.server,
        share: parsed.share,
        user: first_of(credentials.username, parsed.user),
        password: credentials.password,
        domain: first_of(credentials.domain, parsed.domain),
        seal: asks_for_seal(options),
        timeout_secs: DEFAULT_TIMEOUT_SECS,
        label: label_of(parsed),
    }
}

fn prefer(a: &Option<String>, b: &Option<String>) -> (r: Option<String>)
    ensures
        text::optional(r) == first_of(text::optional(*a), text::optional(*b)),
{
    match a {
        Some(v) => Some(v.clone()),
        None => text::cloned_optional(b),
    }
}

/// Opens [`SmbBackend`] sessions for `smb://` endpoints.
#[derive(Debug, Clone, Copy)]
pub struct SmbDriver;

impl SmbDriver {
    pub fn new() -> (r: Self)
        ensures
            r.scheme_text() == "smb"@,
    {
        SmbDriver
    }

    /// What connecting to `endpoint` asks for.
    pub fn configure(
        &self,
        endpoint: &Endpoint,
        credentials: &Credentials,
        options: &ConnectionOptions,
    ) -> (r: Result<ConnectConfig, Error>)
        ensures
            match parts_of(endpoint@.authority_and_path) {
                Ok(parsed) => r matches Ok(config) && config@ == config_of(
                    parsed,
                    credentials@,
                    options@,
                ),
                Err(reason) => r matches Err(e) && e@ == (ErrorView::InvalidPath {
                    path: endpoint@.authority_and_path,
                    reason,
                }),
            },
    {
        let parsed = match ParsedEndpoint::parse(endpoint.authority_and_path()) {
            Ok(parsed) => parsed,
            Err(e) => {
                return Err(e);
            },
        };
        let label = parsed.label();
        let seal = match options.get_bool(OPT_SEAL) {
            Some(seal) => seal,
            None => false,
        };
        Ok(
            ConnectConfig {
                user: prefer(&credentials.username, &parsed.user),
                password: text::cloned_optional(&credentials.password),
                domain: prefer(&credentials.domain, &parsed.domain),
                seal,
                timeout_secs: DEFAULT_TIMEOUT_SECS,
                label,
                server: parsed.server,
                share: parsed.share,
            },
        )
    }
}

impl Default for SmbDriver {
    fn default() -> (r: Self)
        ensures
            r.scheme_text() == "smb"@,
    {
        SmbDriver
    }
}

impl BackendDriver for SmbDriver {
    open spec fn scheme_text(&self) -> Seq<char> {
        "smb"@
    }

    fn scheme(&self) -> (r: &'static str) {
        "smb"
    }

    fn description(&self) -> (r: &'static str)
        ensures
            r@ == "SMB2/3 share"@,
    {
        "SMB2/3 share"
    }
}

/// A password never decides anything but itself: it turns no encryption on, and
/// encryption is off unless an option asks for it.
pub proof fn encryption_is_off_unless_asked_for(
    parsed: ParsedView,
    credentials: CredentialsView,
    options: Map<Seq<char>, Seq<char>>,
)
    ensures
        config_of(parsed, credentials, Map::empty()).seal == false,
        config_of(parsed, credentials, options).seal == config_of(
            parsed,
            (CredentialsView { password: None, ..credentials }),
            options,
        ).seal,
{
}

/// A connected SMB share: what is known of it without asking the server.
pub struct SmbBackend {
    endpoint: String,
    info: SmbInfo,
}

impl SmbBackend {
    /// What the session settled on.
    pub closed spec fn settled(&self) -> SmbInfo {
        self.info
    }

    /// The backend for a session that was opened as `config` asked.
    pub fn new(config: &ConnectConfig, info: SmbInfo) -> (r: Self)
        ensures
            r.endpoint_text() == config@.label,
            r.settled() == info,
    {
        SmbBackend { endpoint: config.label.clone(), info }
    }

    /// What this connection negotiated, for a diagnostics screen.
    pub fn info(&self) -> (r: SmbInfo)
        ensures
            r == self.settled(),
    {
        self.info
    }
}

impl StorageBackend for SmbBackend {
    closed spec fn endpoint_text(&self) -> Seq<char> {
        self.endpoint@
    }

    fn endpoint(&self) -> (r: &str) {
        self.endpoint.as_str()
    }

    fn capabilities(&self) -> (r: Capabilities)
        ensures
            r == Capabilities::full(),
    {
        Capabilities::full()
    }
}

// ---------------------------------------------------------------------------
// Laws
// ---------------------------------------------------------------------------

/// A part with the separator after it; nothing where it is absent.
pub open spec fn with_separator(part: Option<Seq<char>>, c: char) -> Seq<char> {
    match part {
        Some(p) => p.push(c),
        None => Seq::empty(),
    }
}

/// An endpoint that was put together from its parts is taken apart into them:
/// `[domain;][user@]server/share`, and whatever follows the share after another
/// slash is no part of it.
pub proof fn parsing_undoes_putting_together(
    domain: Option<Seq<char>>,
    user: Option<Seq<char>>,
    server: Seq<char>,
    share: Seq<char>,
    beyond: Option<Seq<char>>,
    s: &str,
    r: Result<ParsedEndpoint, Error>,
)
    requires
        s@ == with_separator(domain, ';') + with_separator(user, '@') + server + seq!['/'] + share
            + (match beyond {
            Some(b) => seq!['/'] + b,
            None => Seq::empty(),
        }),
        server.len() > 0 && share.len() > 0,
        !server.contains('/') && !server.contains(';') && !server.contains('@'),
        !share.contains('/'),
        user matches Some(u) ==> u.len() > 0 && !u.contains('/') && !u.contains(';')
            && !u.contains('@'),
        domain matches Some(d) ==> d.len() > 0 && !d.contains('/') && !d.contains(';'),
        call_ensures(ParsedEndpoint::parse, (s,), r),
    ensures
        r matches Ok(parsed) && {
            &&& parsed.server@ == server
            &&& parsed.share@ == share
            &&& (match parsed.user {
                Some(u) => user == Some(u@),
                None => user is None,
            })
            &&& (match parsed.domain {
                Some(d) => domain == Some(d@),
                None => domain is None,
            })
        },
{
    reveal_strlit("/");
    reveal_strlit(";");
    reveal_strlit("@");
    assert("/"@ =~= seq!['/'] && ";"@ =~= seq![';'] && "@"@ =~= seq!['@']);
    let named = with_separator(user, '@') + server;
    let authority = with_separator(domain, ';') + named;
    let tail = match beyond {
        Some(b) => seq!['/'] + b,
        None => Seq::empty(),
    };
    let rest = share + tail;
    assert(!named.contains('/') && !named.contains(';')) by {
        if named.contains('/') {
            let k = named.index_of('/');
            if user is Some && k < user->0.len() {
                assert(user->0[k] == '/');
            } else if k >= with_separator(user, '@').len() {
                assert(server[k - with_separator(user, '@').len()] == '/');
            }
        }
        if named.contains(';') {
            let k = named.index_of(';');
            if user is Some && k < user->0.len() {
                assert(user->0[k] == ';');
            } else if k >= with_separator(user, '@').len() {
                assert(server[k - with_separator(user, '@').len()] == ';');
            }
        }
    }
    assert(!authority.contains('/')) by {
        if authority.contains('/') {
            let k = authority.index_of('/');
            let n = with_separator(domain, ';').len();
            if domain is Some && k < domain->0.len() {
                assert(domain->0[k] == '/');
            } else if k >= n {
                assert(named[k - n] == '/');
            }
        }
    }
    assert(s@ =~= authority + seq!['/'] + rest);
    text::cutting_undoes_joining(authority, '/', rest);
    match beyond {
        Some(b) => {
            assert(rest =~= share + seq!['/'] + b);
            text::cutting_undoes_joining(share, '/', b);
        },
        None => {
            assert(rest =~= share);
            text::nothing_to_cut_at(share, '/');
        },
    }
    match domain {
        Some(d) => {
            assert(authority =~= d + seq![';'] + named);
            text::cutting_undoes_joining(d, ';', named);
        },
        None => {
            assert(authority =~= named);
            text::nothing_to_cut_at(named, ';');
        },
    }
    match user {
        Some(u) => {
            assert(named =~= u + seq!['@'] + server);
            text::cutting_undoes_joining(u, '@', server);
        },
        None => {
            assert(named =~= server);
            text::nothing_to_cut_at(server, '@');
        },
    }
}

/// An endpoint that is accepted names a server and a share, neither of them
/// empty and neither with a slash in it, and no part that it does not hold. One
/// without a slash, or with nothing before it or after it, is refused.
pub proof fn an_endpoint_names_a_server_and_a_share(s: &str, r: Result<ParsedEndpoint, Error>)
    requires
        call_ensures(ParsedEndpoint::parse, (s,), r),
    ensures
        r matches Ok(parsed) ==> {
            &&& parsed.server@.len() > 0
            &&& parsed.share@.len() > 0
            &&& !parsed.share@.contains('/')
            &&& !parsed.server@.contains('/')
            &&& parsed.user matches Some(u) ==> u@.len() > 0
            &&& parsed.domain matches Some(d) ==> d@.len() > 0
        },
        !s@.contains('/') ==> r is Err,
        s@.len() > 0 && s@[0] == '/' ==> r is Err,
        r matches Err(e) ==> (e@ matches ErrorView::InvalidPath { path, .. } && path == s@),
{
    reveal_strlit("/");
    reveal_strlit(";");
    reveal_strlit("@");
    let slash = "/"@;
    assert(slash =~= seq!['/'] && ";"@ =~= seq![';'] && "@"@ =~= seq!['@']);
    if !s@.contains('/') {
        text::nothing_to_cut_at(s@, '/');
    }
    if let Some((authority, rest)) = text::cut(s@, slash) {
        holds_none_before_the_cut(s@, '/');
        holds_none_before_the_cut(rest, '/');
        let after = leading(authority, ";"@).1;
        let server = leading(after, "@"@).1;
        a_tail_holds_no_more(authority, ";"@, '/');
        a_tail_holds_no_more(after, "@"@, '/');
        text::first_from_is_first(s@, slash, 0);
        if s@[0] == '/' {
            if authority.len() > 0 {
                assert(authority[0] == s@[0]);
                assert(authority.contains('/'));
            }
            assert(authority.len() == 0);
            text::first_from_is_first(authority, ";"@, 0);
            assert(after.len() == 0);
            text::first_from_is_first(after, "@"@, 0);
            assert(server.len() == 0);
        }
        if text::cut(rest, slash) is None {
            if rest.contains('/') {
                let k = rest.index_of('/');
                text::first_from_is_first(rest, slash, 0);
                assert(rest.subrange(k, k + 1) =~= slash);
                assert(text::occurs_at(rest, slash, k));
            }
        }
    }
}

/// What stands before the first occurrence of a character does not hold it.
proof fn holds_none_before_the_cut(s: Seq<char>, c: char)
    ensures
        text::cut(s, seq![c]) matches Some((a, _)) ==> !a.contains(c),
{
    text::first_from_is_first(s, seq![c], 0);
    if let Some((a, b)) = text::cut(s, seq![c]) {
        if a.contains(c) {
            let k = a.index_of(c);
            assert(s.subrange(k, k + 1) =~= seq![c]);
            assert(text::occurs_at(s, seq![c], k));
        }
    }
}

/// What follows a separator holds no character that the whole does not hold.
proof fn a_tail_holds_no_more(s: Seq<char>, sep: Seq<char>, c: char)
    requires
        !s.contains(c),
    ensures
        !leading(s, sep).1.contains(c),
{
    text::first_from_is_first(s, sep, 0);
    let tail = leading(s, sep).1;
    if tail.contains(c) {
        let k = tail.index_of(c);
        assert(s[s.len() - tail.len() + k] == c);
    }
}

/// What connecting asks for, given how the endpoint was taken apart. The server
/// and the share are the endpoint's; a user and a domain are the caller's own
/// where the caller gave them, and the endpoint's only where not, each for
/// itself; a password is only ever the caller's; encryption is on exactly where
/// the option spells "true".
pub proof fn explicit_credentials_win(
    driver: SmbDriver,
    endpoint: Endpoint,
    credentials: Credentials,
    options: ConnectionOptions,
    text: &str,
    parsed: Result<ParsedEndpoint, Error>,
    seal: Option<bool>,
    r: Result<ConnectConfig, Error>,
)
    requires
        call_ensures(
            SmbDriver::configure,
            (&driver, &endpoint, &credentials, &options),
            r,
        ),
        text@ == endpoint@.authority_and_path,
        call_ensures(ParsedEndpoint::parse, (text,), parsed),
        call_ensures(ConnectionOptions::get_bool, (&options, "smb.seal"), seal),
    ensures
        r is Ok <==> parsed is Ok,
        r is Err ==> r->Err_0@ == parsed->Err_0@,
        r matches Ok(config) ==> {
            &&& config.server@ == parsed->Ok_0.server@
            &&& config.share@ == parsed->Ok_0.share@
            &&& credentials.username is Some ==> config.user is Some && config.user->0@
                == credentials.username->0@
            &&& credentials.username is None && parsed->Ok_0.user is Some ==> config.user is Some
                && config.user->0@ == parsed->Ok_0.user->0@
            &&& credentials.username is None && parsed->Ok_0.user is None ==> config.user is None
            &&& credentials.domain is Some ==> config.domain is Some && config.domain->0@
                == credentials.domain->0@
            &&& credentials.domain is None && parsed->Ok_0.domain is Some ==> config.domain is Some
                && config.domain->0@ == parsed->Ok_0.domain->0@
            &&& credentials.domain is None && parsed->Ok_0.domain is None ==> config.domain is None
            &&& credentials.password is Some ==> config.password is Some && config.password->0@
                == credentials.password->0@
            &&& credentials.password is None ==> config.password is None
            &&& config.seal <==> seal == Some(true)
            &&& config.timeout_secs == 20
            &&& config.label@ == "smb://"@ + parsed->Ok_0.server@ + "/"@ + parsed->Ok_0.share@
        },
{
}

/// The label of an endpoint is its server and its share, as a URI.
pub proof fn the_label_is_the_bare_uri(parsed: ParsedEndpoint, r: String)
    requires
        call_ensures(ParsedEndpoint::label, (&parsed,), r),
    ensures
        r@ == "smb://"@ + parsed.server@ + "/"@ + parsed.share@,
{
}

/// A connected share is known by the endpoint it was connected to and by what the
/// session settled on, and can do everything.
pub proof fn a_share_is_its_endpoint_and_its_session(
    config: ConnectConfig,
    info: SmbInfo,
    b: SmbBackend,
    known: SmbInfo,
    endpoint: &str,
    claimed: Capabilities,
)
    requires
        call_ensures(SmbBackend::new, (&config, info), b),
        call_ensures(SmbBackend::info, (&b,), known),
        call_ensures(<SmbBackend as StorageBackend>::endpoint, (&b,), endpoint),
        call_ensures(<SmbBackend as StorageBackend>::capabilities, (&b,), claimed),
    ensures
        known == info,
        endpoint@ == config.label@,
        claimed.random_read && claimed.random_write && claimed.atomic_rename && claimed.set_len
            && claimed.durable_flush && claimed.modification_times,
{
}

} // verus!
