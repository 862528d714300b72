use agent_seat_linux::{Error, SeatError};

#[test]
fn string_conversions_become_custom() {
    let owned = SeatError::from(String::from("boom"));
    assert!(matches!(&owned, SeatError::Custom(_)));
    assert_eq!(owned.to_string(), "boom");

    let borrowed = SeatError::from("boom");
    assert!(matches!(&borrowed, SeatError::Custom(_)));
    assert_eq!(borrowed.to_string(), "boom");
}

#[test]
fn io_errors_keep_their_message_and_chain() {
    let inner = std::io::Error::other("disk");
    let has_source = std::error::Error::source(&inner).is_some();
    let error = SeatError::from(inner);
    assert!(matches!(&error, SeatError::Io(_)));
    assert!(error.to_string().contains("disk"));
    assert_eq!(error.has_source(), has_source);
}

#[test]
fn every_variant_shows_its_subsystem() {
    let text = || String::from("why");
    assert_eq!(
        SeatError::NoWaylandSession.to_string(),
        "no Wayland session is available to proxy into"
    );
    assert_eq!(
        SeatError::MissingRuntimeDir.to_string(),
        "XDG_RUNTIME_DIR is not set; no runtime directory for the seat socket"
    );
    assert_eq!(
        SeatError::SocketCreate(text()).to_string(),
        "could not create the agent seat socket: why"
    );
    assert_eq!(SeatError::Xwayland(text()).to_string(), "XWayland bridge failure: why");
    assert_eq!(SeatError::Xauth(text()).to_string(), "XWayland authority failure: why");
    assert_eq!(SeatError::PeerCredential(text()).to_string(), "peer credential failure: why");
    assert_eq!(SeatError::Capture(text()).to_string(), "capture failure: why");
    assert_eq!(SeatError::Input(text()).to_string(), "input injection failure: why");
    assert_eq!(SeatError::Process(text()).to_string(), "process failure: why");
    assert_eq!(SeatError::Custom(text()).to_string(), "why");
    assert!(!SeatError::Custom(text()).has_source());
}

#[test]
fn an_io_error_without_a_cause_has_no_source() {
    let plain = std::io::Error::from(std::io::ErrorKind::NotFound);
    assert!(std::error::Error::source(&plain).is_none());
    assert!(!SeatError::from(plain).has_source());
}

#[derive(Debug)]
struct Caused(std::fmt::Error);

impl std::fmt::Display for Caused {
    fn fmt(&self, formatter: &mut std::fmt::Formatter<'_>) -> std::fmt::Result {
        formatter.write_str("caused")
    }
}

impl std::error::Error for Caused {
    fn source(&self) -> Option<&(dyn std::error::Error + 'static)> {
        Some(&self.0)
    }
}

#[test]
fn an_io_error_passes_its_cause_on() {
    let error = SeatError::from(std::io::Error::other(Caused(std::fmt::Error)));
    assert_eq!(error.to_string(), "caused");
    assert!(error.has_source());
}

#[test]
fn harness_errors_wrap_seat_errors() {
    let wrapped = Error::from(SeatError::Capture(String::from("no frame")));
    assert_eq!(wrapped.to_string(), "capture failure: no frame");
    assert!(matches!(wrapped.source(), Some(SeatError::Capture(m)) if m == "no frame"));

    let plain = Error::from(String::from("plain"));
    assert_eq!(plain.to_string(), "plain");
    assert!(plain.source().is_none());

    let io = Error::from(std::io::Error::other("disk"));
    assert_eq!(io.to_string(), "disk");
    assert!(io.source().is_none());
}

#[test]
fn harness_errors_compare_by_message() {
    let one = Error::new(String::from("same"));
    let two = Error::from(SeatError::Custom(String::from("same")));
    assert!(one == two);
    assert!(one == one.clone());
    assert!(one != Error::new(String::from("other")));
}
