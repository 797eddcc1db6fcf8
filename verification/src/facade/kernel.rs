//! The registry of backends, and what connecting through it comes to.

use vstd::prelude::*;
use crate::error::{Error, ErrorView};
use crate::local::driver::{self as local, LocalDriver};
use crate::names;
use crate::registry::{
    self,
    BackendDriver,
    BackendRegistry,
    ConnectionOptions,
    Credentials,
    CredentialsView,
};
use crate::smb::backend::{self as smb, ConnectConfig, ConnectView, SmbDriver};
use crate::text;

verus! {

/// The drivers this build was compiled with.
pub enum Driver {
    Local(LocalDriver),
    Smb(SmbDriver),
}

impl BackendDriver for Driver {
    open spec fn scheme_text(&self) -> Seq<char> {
        match *self {
            Driver::Local(_) => "file"@,
            Driver::Smb(_) => "smb"@,
        }
    }

    fn scheme(&self) -> (r: &'static str) {
        match self {
            Driver::Local(d) => d.scheme(),
            Driver::Smb(d) => d.scheme(),
        }
    }

    fn description(&self) -> (r: &'static str)
        ensures
            r@ == match *self {
                Driver::Local(_) => "Local filesystem"@,
                Driver::Smb(_) => "SMB2/3 share"@,
            },
    {
        match self {
            Driver::Local(d) => d.description(),
            Driver::Smb(d) => d.description(),
        }
    }
}

/// What a connection needs that was decided on: everything but the connecting.
pub enum Connection {
    /// A local directory.
    Local { root: String },
    /// A share on a server.
    Smb { config: ConnectConfig },
}

/// A [`Connection`] with texts.
#[verifier::ext_equal]
pub enum ConnectionView {
    Local { root: Seq<char> },
    Smb { config: ConnectView },
}

impl View for Connection {
    type V = ConnectionView;

    open spec fn view(&self) -> ConnectionView {
        match *self {
            Connection::Local { root } => ConnectionView::Local { root: root@ },
            Connection::Smb { config } => ConnectionView::Smb { config: config@ },
        }
    }
}

/// What connecting to a faultless endpoint of a driver comes to.
pub open spec fn through(
    driver: Driver,
    rest: Seq<char>,
    credentials: CredentialsView,
    options: Map<Seq<char>, Seq<char>>,
    windows: bool,
) -> Result<ConnectionView, ErrorView> {
    match driver {
        Driver::Local(_) => if rest.len() == 0 {
            Err(
                ErrorView::InvalidPath {
                    path: "file://"@,
                    reason: "a `file://` endpoint must name a directory, e.g. `file:///D:/media`"@,
                },
            )
        } else {
            Ok(ConnectionView::Local { root: local::root_path(rest, windows) })
        },
        Driver::Smb(_) => match smb::parts_of(rest) {
            Ok(parsed) => Ok(
                ConnectionView::Smb { config: smb::config_of(parsed, credentials, options) },
            ),
            Err(reason) => Err(ErrorView::InvalidPath { path: rest, reason }),
        },
    }
}

/// What connecting to a URI comes to.
pub open spec fn planned(
    drivers: Map<Seq<char>, Driver>,
    uri: Seq<char>,
    credentials: CredentialsView,
    options: Map<Seq<char>, Seq<char>>,
    windows: bool,
) -> Result<ConnectionView, ErrorView> {
    match registry::endpoint_fault(uri) {
        Some(reason) => Err(ErrorView::InvalidPath { path: uri, reason }),
        None => {
            let endpoint = registry::endpoint_of(uri);
            if drivers.contains_key(endpoint.scheme) {
                through(
                    drivers[endpoint.scheme],
                    endpoint.authority_and_path,
                    credentials,
                    options,
                    windows,
                )
            } else {
                Err(
                    ErrorView::Unsupported {
                        operation: "connect: no driver registered for this scheme"@,
                    },
                )
            }
        },
    }
}

/// Entry point: the registry of storage backends this build supports.
pub struct Kernel {
    registry: BackendRegistry<Driver>,
}

impl Kernel {
    /// The driver behind each scheme.
    pub closed spec fn drivers(&self) -> Map<Seq<char>, Driver> {
        self.registry@
    }

    /// Create a kernel with every backend this build was compiled with.
    pub fn new() -> (r: Self)
        ensures
            forall|k: Seq<char>| r.drivers().contains_key(k) <==> k == "file"@ || k == "smb"@,
            r.drivers()["file"@] is Local,
            r.drivers()["smb"@] is Smb,
    {
        let mut registry = BackendRegistry::new();
        let _ = registry.register(Driver::Local(LocalDriver::new()));
        let _ = registry.register(Driver::Smb(SmbDriver::new()));
        proof {
            reveal_strlit("file");
            reveal_strlit("smb");
            assert(text::lowered("file"@) =~= "file"@);
            assert(text::lowered("smb"@) =~= "smb"@);
            assert("file"@.len() != "smb"@.len());
        }
        Kernel { registry }
    }

    /// The URI schemes this build can connect to, sorted.
    pub fn schemes(&self) -> (r: Vec<String>)
        ensures
            names::in_order(text::texts(r@)),
            forall|k: Seq<char>| self.drivers().contains_key(k) <==> text::texts(r@).contains(k),
            r@.len() == self.drivers().len(),
            forall|i: int|
                0 <= i < r@.len() ==> text::lowered(#[trigger] text::texts(r@)[i])
                    == text::texts(r@)[i],
    {
        let schemes = self.registry.schemes();
        let ghost keys = schemes@.map_values(|s: &str| s@);
        let mut out: Vec<String> = Vec::new();
        let mut i: usize = 0;
        while i < schemes.len()
            invariant
                i <= schemes@.len(),
                keys == schemes@.map_values(|s: &str| s@),
                text::texts(out@) == keys.take(i as int),
            decreases schemes@.len() - i,
        {
            let ghost before = text::texts(out@);
            out.push(schemes[i].to_owned());
            proof {
                assert(text::texts(out@) =~= before.push(schemes@[i as int]@));
                assert(keys.take(i + 1) =~= keys.take(i as int).push(keys[i as int]));
            }
            i = i + 1;
        }
        assert(keys.take(keys.len() as int) =~= keys);
        assert forall|j: int| 0 <= j < out@.len() implies text::lowered(
            #[trigger] text::texts(out@)[j],
        ) == text::texts(out@)[j] by {
            assert(text::texts(out@)[j] == schemes@[j]@);
        }
        out
    }

    /// What a scheme's driver says of itself; nothing for an unknown scheme.
    pub fn describe(&self, scheme: &str) -> (r: &'static str)
        ensures
            r@ == if self.drivers().contains_key(text::lowered(scheme@)) {
                match self.drivers()[text::lowered(scheme@)] {
                    Driver::Local(_) => "Local filesystem"@,
                    Driver::Smb(_) => "SMB2/3 share"@,
                }
            } else {
                ""@
            },
    {
        match self.registry.driver_for(scheme) {
            Some(driver) => driver.description(),
            None => "",
        }
    }

    /// Decides everything about connecting to `uri` but the connecting itself.
    pub fn plan(
        &self,
        uri: &str,
        credentials: &Credentials,
        options: &ConnectionOptions,
        windows: bool,
    ) -> (r: Result<Connection, Error>)
        ensures
            match planned(self.drivers(), uri@, credentials@, options@, windows) {
                Ok(v) => r matches Ok(connection) && connection@ == v,
                Err(v) => r matches Err(e) && e@ == v,
            },
    {
        let (endpoint, driver) = match self.registry.route(uri) {
            Ok(routed) => routed,
            Err(e) => {
                return Err(e);
            },
        };
        match driver {
            Driver::Local(_) => match local::parse_root(endpoint.authority_and_path(), windows) {
                Ok(root) => Ok(Connection::Local { root }),
                Err(e) => Err(e),
            },
            Driver::Smb(smb) => match smb.configure(&endpoint, credentials, options) {
                Ok(config) => Ok(Connection::Smb { config }),
                Err(e) => Err(e),
            },
        }
    }
}

impl Default for Kernel {
    fn default() -> (r: Self)
        ensures
            forall|k: Seq<char>| r.drivers().contains_key(k) <==> k == "file"@ || k == "smb"@,
            r.drivers()["file"@] is Local,
            r.drivers()["smb"@] is Smb,
    {
        Kernel::new()
    }
}

/// A scheme that no driver is registered for is refused before anything else of
/// the URI is looked at.
pub proof fn an_unknown_scheme_is_unsupported(
    drivers: Map<Seq<char>, Driver>,
    uri: Seq<char>,
    credentials: CredentialsView,
    options: Map<Seq<char>, Seq<char>>,
    windows: bool,
)
    requires
        registry::endpoint_fault(uri) is None,
        !drivers.contains_key(registry::endpoint_of(uri).scheme),
    ensures
        planned(drivers, uri, credentials, options, windows) matches Err(e) && e is Unsupported,
{
}

/// A kernel serves local directories and SMB shares. A URI leads to the driver for
/// its scheme: a `file` URI to its root, and an `smb` URI to what its driver asks
/// for, with the caller's credentials and options.
pub proof fn a_uri_leads_to_its_backend(
    kernel: Kernel,
    uri: &str,
    credentials: Credentials,
    options: ConnectionOptions,
    windows: bool,
    parsed: Result<registry::Endpoint, Error>,
    endpoint: registry::Endpoint,
    rest: &str,
    root: Result<String, Error>,
    smb_driver: SmbDriver,
    config: Result<ConnectConfig, Error>,
    r: Result<Connection, Error>,
)
    requires
        call_ensures(Kernel::new, (), kernel),
        call_ensures(registry::Endpoint::parse, (uri,), parsed),
        parsed is Ok ==> endpoint == parsed->Ok_0,
        rest@ == endpoint@.authority_and_path,
        call_ensures(local::parse_root, (rest, windows), root),
        call_ensures(
            SmbDriver::configure,
            (&smb_driver, &endpoint, &credentials, &options),
            config,
        ),
        call_ensures(Kernel::plan, (&kernel, uri, &credentials, &options, windows), r),
    ensures
        parsed is Err ==> r is Err && r->Err_0@ == parsed->Err_0@,
        parsed is Ok && endpoint@.scheme == "file"@ ==> match root {
            Ok(path) => r matches Ok(Connection::Local { root: served }) && served@ == path@,
            Err(e) => r is Err && r->Err_0@ == e@,
        },
        parsed is Ok && endpoint@.scheme == "smb"@ ==> match config {
            Ok(c) => r matches Ok(Connection::Smb { config: used }) && used@ == c@,
            Err(e) => r is Err && r->Err_0@ == e@,
        },
        parsed is Ok && endpoint@.scheme != "file"@ && endpoint@.scheme != "smb"@ ==> r is Err
            && r->Err_0@ is Unsupported,
{
}

/// A kernel lists the two schemes it serves, and says what each of them is,
/// whatever the case it is asked in.
pub proof fn a_kernel_describes_what_it_serves(kernel: Kernel, scheme: &str, r: &'static str)
    requires
        call_ensures(Kernel::new, (), kernel),
        call_ensures(Kernel::describe, (&kernel, scheme), r),
    ensures
        text::lowered(scheme@) == "file"@ ==> r@ == "Local filesystem"@,
        text::lowered(scheme@) == "smb"@ ==> r@ == "SMB2/3 share"@,
        text::lowered(scheme@) != "file"@ && text::lowered(scheme@) != "smb"@ ==> r@ == ""@,
{
}

/// A kernel lists exactly the schemes it serves, `file` before `smb`.
pub proof fn a_kernel_lists_what_it_serves(kernel: Kernel, r: Vec<String>)
    requires
        call_ensures(Kernel::new, (), kernel),
        call_ensures(Kernel::schemes, (&kernel,), r),
    ensures
        r@.len() == 2,
        r@[0]@ == "file"@,
        r@[1]@ == "smb"@,
{
    reveal_strlit("file");
    reveal_strlit("smb");
    let names = text::texts(r@);
    let (file, smb) = ("file"@, "smb"@);
    assert(names.contains(file) && names.contains(smb));
    let f = names.index_of(file);
    let s = names.index_of(smb);
    assert(smb[0] as int > file[0] as int);
    assert(!text::text_before(smb, file));
    text::order_is_irreflexive(file);
    text::order_is_irreflexive(smb);
    if s < f {
        assert(text::text_before(names[s], names[f]));
    }
    assert(f < s);
    assert forall|i: int| #![trigger names[i]] 0 <= i < names.len() implies i == f || i == s by {
        assert(names.contains(names[i]));
        if names[i] == file && i != f {
            if i < f {
                assert(text::text_before(names[i], names[f]));
            } else {
                assert(text::text_before(names[f], names[i]));
            }
        }
        if names[i] == smb && i != s {
            if i < s {
                assert(text::text_before(names[i], names[s]));
            } else {
                assert(text::text_before(names[s], names[i]));
            }
        }
    }
    assert(f == 0) by {
        assert(names[0] == file || names[0] == smb);
    }
    assert(s == 1) by {
        assert(names[1] == file || names[1] == smb);
    }
    if names.len() > 2 {
        assert(names[2] == file || names[2] == smb);
    }
    assert(names[0] == r@[0]@ && names[1] == r@[1]@);
}

} // verus!
