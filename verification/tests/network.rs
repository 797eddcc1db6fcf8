use krystallos::network::{ensure, ensure_network_ready, startup_outcome};

#[test]
fn initialisation_is_idempotent() {
    ensure_network_ready().expect("network initialisation should succeed");
    ensure_network_ready().expect("second call should also succeed");
    ensure().expect("there is nothing to set up");
}

#[test]
fn a_failed_startup_names_its_code() {
    assert_eq!(startup_outcome(0), Ok(()));
    let message = startup_outcome(10091).unwrap_err();
    assert!(message.contains("10091"), "got {message}");
    assert!(startup_outcome(-7).unwrap_err().contains("-7"));
}
