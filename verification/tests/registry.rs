use krystallos::error::Error;
use krystallos::facade::kernel::{Connection, Kernel};
use krystallos::registry::{
    redacted, BackendDriver, BackendRegistry, ConnectionOptions, Credentials, Endpoint,
};

struct D(&'static str);

impl BackendDriver for D {
    fn scheme(&self) -> &'static str {
        self.0
    }
}

#[test]
fn parses_scheme_and_remainder() {
    let e = Endpoint::parse("smb://nas.local/media/movies").unwrap();
    assert_eq!(e.scheme(), "smb");
    assert_eq!(e.authority_and_path(), "nas.local/media/movies");
    assert_eq!(e.as_str(), "smb://nas.local/media/movies");
    assert_eq!(e.to_string(), "smb://nas.local/media/movies");
}

#[test]
fn scheme_matching_is_case_insensitive() {
    let e = Endpoint::parse("SMB://host/share").unwrap();
    assert_eq!(e.scheme(), "smb");
}

#[test]
fn base64_style_scheme_characters_are_allowed() {
    assert!(Endpoint::parse("web+dav://h/p").is_ok());
    assert!(Endpoint::parse("a-b.c://h/p").is_ok());
}

#[test]
fn rejects_missing_or_malformed_scheme() {
    for bad in ["nas.local/share", "://host/share", "sm b://host"] {
        assert!(Endpoint::parse(bad).is_err(), "{bad:?} should be rejected");
    }
}

#[test]
fn the_reason_for_rejecting_an_endpoint_is_named() {
    let reason = |uri: &str| match Endpoint::parse(uri) {
        Err(Error::InvalidPath { path, reason }) => {
            assert_eq!(path, uri);
            reason
        }
        other => panic!("got {other:?}"),
    };
    assert_eq!(reason("host"), "endpoint is missing a `scheme://` prefix");
    assert_eq!(reason("://h"), "endpoint has an empty scheme");
    assert_eq!(reason("s b://h"), "`s b` is not a valid URI scheme");
}

#[test]
fn only_the_first_separator_ends_the_scheme() {
    let e = Endpoint::parse("A://b://c").unwrap();
    assert_eq!(e.scheme(), "a");
    assert_eq!(e.authority_and_path(), "b://c");
}

#[test]
fn credentials_debug_never_reveals_the_password() {
    let c = Credentials::user_password("alice", "hunter2");
    let rendered = c.debug_text();
    assert!(
        !rendered.contains("hunter2"),
        "password leaked into Debug output: {rendered}"
    );
    assert!(rendered.contains("redacted"));
    assert!(rendered.contains("alice"), "username should still be visible");
}

#[test]
fn credentials_read_the_same_whatever_the_password_is() {
    let render = |p: &str| Credentials::user_password("a\"b", p).with_domain("W").debug_text();
    assert_eq!(render("one"), render("two"));
    assert_eq!(
        render("x"),
        "Credentials { username: Some(\"a\\\"b\"), password: Some(\"<redacted>\"), \
         domain: Some(\"W\") }"
    );
    assert_eq!(
        Credentials::anonymous().debug_text(),
        "Credentials { username: None, password: None, domain: None }"
    );
    assert_eq!(
        redacted(Some("u"), false, None),
        "Credentials { username: Some(u), password: None, domain: None }"
    );
}

#[test]
fn cloned_credentials_are_equal() {
    let c = Credentials::user_password("u", "p").with_domain("d");
    assert!(c.clone() == c);
    assert!(Credentials::default() == Credentials::anonymous());
}

#[test]
fn registry_reports_registered_schemes_sorted() {
    let mut reg = BackendRegistry::new();
    assert!(reg.is_empty());
    reg.register(Box::new(D("smb")));
    reg.register(Box::new(D("file")));
    assert_eq!(reg.schemes(), ["file", "smb"]);
    assert_eq!(reg.len(), 2);
    assert!(reg.driver_for("SMB").is_some(), "lookup is case-insensitive");
    assert!(reg.driver_for("sftp").is_none());
}

#[test]
fn registering_the_same_scheme_returns_the_displaced_driver() {
    let mut reg = BackendRegistry::new();
    assert!(reg.register(Box::new(D("smb"))).is_none());
    assert!(
        reg.register(Box::new(D("smb"))).is_some(),
        "second registration should hand back the first driver"
    );
    assert_eq!(reg.len(), 1);
}

#[test]
fn schemes_are_listed_once_and_in_small_letters() {
    let mut reg = BackendRegistry::new();
    for scheme in ["SMB", "file", "smb", "Sftp", "FILE"] {
        reg.register(D(scheme));
    }
    assert_eq!(reg.schemes(), ["file", "sftp", "smb"]);
    assert_eq!(reg.len(), 3);
    assert_eq!(reg.driver_for("Smb").unwrap().0, "smb", "the last one wins");
    assert_eq!(reg.driver_for("file").unwrap().0, "FILE");
}

#[test]
fn a_registry_of_trait_objects_routes_by_scheme() {
    let mut reg: BackendRegistry<Box<dyn BackendDriver>> = BackendRegistry::default();
    reg.register(Box::new(D("WebDAV")));
    let (endpoint, driver) = reg.route("webdav://h/p").unwrap();
    assert_eq!(endpoint.authority_and_path(), "h/p");
    assert_eq!(driver.scheme(), "WebDAV");
    assert_eq!(driver.description(), "");
}

#[test]
fn connect_on_an_unregistered_scheme_names_the_failure() {
    let reg: BackendRegistry<D> = BackendRegistry::new();
    let err = reg.route("sftp://h/p").map(|_| ());
    assert!(matches!(err, Err(Error::Unsupported { .. })));
}

#[test]
fn options_hold_what_was_set_last_in_the_order_of_their_keys() {
    let mut options = ConnectionOptions::new();
    assert!(options.is_empty());
    options.set("smb.seal", "no").set("a", "1");
    let options = options.with("smb.seal", "yes").with("b", "2");
    assert_eq!(options.get("smb.seal"), Some("yes"));
    assert_eq!(options.get("c"), None);
    assert_eq!(options.iter(), [("a", "1"), ("b", "2"), ("smb.seal", "yes")]);
    assert!(!options.is_empty());
    assert_eq!(options.clone(), options);
    assert_eq!(ConnectionOptions::default(), ConnectionOptions::new());
}

#[test]
fn booleans_are_read_only_where_they_are_spelled_out() {
    let read = |v: &str| ConnectionOptions::new().with("k", v).get_bool("k");
    for yes in ["1", "true", "YES", " on ", "\u{2003}True\u{3000}\n"] {
        assert_eq!(read(yes), Some(true), "{yes:?}");
    }
    for no in ["0", "false", "No", "\toff"] {
        assert_eq!(read(no), Some(false), "{no:?}");
    }
    for neither in ["", "ture", "2", "o n", "ON\u{200B}"] {
        assert_eq!(read(neither), None, "{neither:?}");
    }
    assert_eq!(ConnectionOptions::new().get_bool("k"), None);
}

#[test]
fn a_plan_holds_everything_but_the_connecting() {
    let kernel = Kernel::new();
    let options = ConnectionOptions::new().with("smb.seal", "on");
    let credentials = Credentials::user_password("alice", "hunter2");
    match kernel.plan("SMB://W;bob@nas/media/x", &credentials, &options, false) {
        Ok(Connection::Smb { config }) => {
            assert_eq!(config.server, "nas");
            assert_eq!(config.share, "media");
            assert_eq!(config.user.as_deref(), Some("alice"), "credentials win over the URI");
            assert_eq!(config.password.as_deref(), Some("hunter2"));
            assert_eq!(config.domain.as_deref(), Some("W"));
            assert!(config.seal);
            assert_eq!(config.timeout_secs, 20);
            assert_eq!(config.label, "smb://nas/media");
        }
        _ => panic!("expected a share"),
    }
    match kernel.plan("file:///D:/media", &credentials, &options, true) {
        Ok(Connection::Local { root }) => assert_eq!(root, "D:/media"),
        _ => panic!("expected a directory"),
    }
    assert!(kernel.plan("file://", &credentials, &options, false).is_err());
    assert!(kernel.plan("smb://nas", &credentials, &options, false).is_err());
    assert!(matches!(
        kernel.plan("sftp://h/p", &credentials, &options, false),
        Err(Error::Unsupported { .. })
    ));
}

#[test]
fn a_password_alone_turns_no_encryption_on() {
    let credentials = Credentials::user_password("a", "b");
    for value in [None, Some("off"), Some("typo")] {
        let mut options = ConnectionOptions::new();
        if let Some(v) = value {
            options.set("smb.seal", v);
        }
        match Kernel::default().plan("smb://h/s", &credentials, &options, false) {
            Ok(Connection::Smb { config }) => assert!(!config.seal, "{value:?}"),
            _ => panic!("expected a share"),
        }
    }
}
