//! Typed error shared by every fallible agent-seat operation.
use crate::text::join2;
use vstd::prelude::*;

verus! {

/// The error of a failed I/O operation.
#[verifier::external_type_specification]
#[verifier::external_body]
pub struct ExIoError(std::io::Error);

/// Every failure mode of the agent seat, from session discovery through
/// capture and input injection. The `String` payloads carry free-form context
/// while the variant identifies the failing subsystem.
#[derive(Debug)]
pub enum SeatError {
    /// No Wayland session exists to proxy into: `WAYLAND_DISPLAY` is unset
    /// or the compositor socket it names does not exist.
    NoWaylandSession,
    /// `XDG_RUNTIME_DIR` is unset or empty, so no socket path can be derived.
    MissingRuntimeDir,
    /// The private agent seat socket could not be bound or configured.
    SocketCreate(String),
    /// The XWayland compatibility bridge failed to start or serve.
    Xwayland(String),
    /// `xauth` credential setup for the XWayland bridge failed.
    Xauth(String),
    /// Kernel peer credentials of a connecting app could not be read or did
    /// not validate.
    PeerCredential(String),
    /// Reading or decoding the app's rendered frame failed.
    Capture(String),
    /// Synthesizing or delivering input events to the app failed.
    Input(String),
    /// Spawning or supervising a helper process or worker thread failed.
    Process(String),
    /// An underlying I/O operation failed.
    Io(std::io::Error),
    /// Any other failure that does not fit a dedicated variant.
    Custom(String),
}

/// `std::error::Error::source` of an I/O error: whether it gives an underlying
/// cause. Which errors do rests on how each was made, and an error of another
/// type inside answers for itself, so nothing is said of the answer.
#[verifier::external_body]
fn io_has_source(error: &std::io::Error) -> (sourced: bool) {
    std::error::Error::source(error).is_some()
}

/// Whether asking an I/O error for its cause comes to this answer.
pub closed spec fn tells_source(error: std::io::Error, sourced: bool) -> bool {
    call_ensures(io_has_source, (&error,), sourced)
}

fn ask<Q: Fn(&std::io::Error) -> bool>(question: Q, error: &std::io::Error) -> (sourced: bool)
    requires
        call_requires(question, (error,)),
    ensures
        call_ensures(question, (error,), sourced),
{
    question(error)
}

impl SeatError {
    /// The fixed text in front of the payload of a variant.
    pub open spec fn label(self) -> Seq<char> {
        match self {
            SeatError::NoWaylandSession => "no Wayland session is available to proxy into"@,
            SeatError::MissingRuntimeDir =>
                "XDG_RUNTIME_DIR is not set; no runtime directory for the seat socket"@,
            SeatError::SocketCreate(_) => "could not create the agent seat socket: "@,
            SeatError::Xwayland(_) => "XWayland bridge failure: "@,
            SeatError::Xauth(_) => "XWayland authority failure: "@,
            SeatError::PeerCredential(_) => "peer credential failure: "@,
            SeatError::Capture(_) => "capture failure: "@,
            SeatError::Input(_) => "input injection failure: "@,
            SeatError::Process(_) => "process failure: "@,
            SeatError::Io(_) => ""@,
            SeatError::Custom(_) => ""@,
        }
    }

    /// The free-form context of a variant.
    pub open spec fn payload(self) -> Seq<char> {
        match self {
            SeatError::SocketCreate(m) => m@,
            SeatError::Xwayland(m) => m@,
            SeatError::Xauth(m) => m@,
            SeatError::PeerCredential(m) => m@,
            SeatError::Capture(m) => m@,
            SeatError::Input(m) => m@,
            SeatError::Process(m) => m@,
            SeatError::Custom(m) => m@,
            _ => Seq::empty(),
        }
    }

    /// Whether this is the message of the error. An I/O error shows its own
    /// message.
    pub open spec fn shown_as(self, text: Seq<char>) -> bool {
        match self {
            SeatError::Io(error) => exists|message: String|
                text == message@ && #[trigger] vstd::string::to_string_from_display_ensures::<
                    std::io::Error,
                >(&error, message),
            _ => text == self.label() + self.payload(),
        }
    }

    /// The message shown for this error.
    pub fn to_string(&self) -> (message: String)
        ensures
            self.shown_as(message@),
    {
        match self {
            SeatError::NoWaylandSession => {
                let message: String = "no Wayland session is available to proxy into".to_owned();
                assert(message@ =~= self.label() + self.payload());
                message
            },
            SeatError::MissingRuntimeDir => {
                let message: String =
                    "XDG_RUNTIME_DIR is not set; no runtime directory for the seat socket".to_owned();
                assert(message@ =~= self.label() + self.payload());
                message
            },
            SeatError::SocketCreate(m) => join2("could not create the agent seat socket: ", m.as_str()),
            SeatError::Xwayland(m) => join2("XWayland bridge failure: ", m.as_str()),
            SeatError::Xauth(m) => join2("XWayland authority failure: ", m.as_str()),
            SeatError::PeerCredential(m) => join2("peer credential failure: ", m.as_str()),
            SeatError::Capture(m) => join2("capture failure: ", m.as_str()),
            SeatError::Input(m) => join2("input injection failure: ", m.as_str()),
            SeatError::Process(m) => join2("process failure: ", m.as_str()),
            SeatError::Io(error) => ToString::to_string(error),
            SeatError::Custom(m) => join2("", m.as_str()),
        }
    }

    /// Whether an underlying cause can be reported: an I/O error is asked for
    /// its own, and no other error has one.
    pub fn has_source(&self) -> (sourced: bool)
        ensures
            match *self {
                SeatError::Io(error) => tells_source(error, sourced),
                _ => !sourced,
            },
    {
        match self {
            SeatError::Io(error) => ask(io_has_source, error),
            _ => false,
        }
    }
}

impl From<String> for SeatError {
    fn from(message: String) -> (error: Self) {
        SeatError::Custom(message)
    }
}

impl vstd::std_specs::convert::FromSpecImpl<String> for SeatError {
    open spec fn obeys_from_spec() -> bool {
        true
    }

    open spec fn from_spec(message: String) -> Self {
        SeatError::Custom(message)
    }
}

impl From<&str> for SeatError {
    fn from(message: &str) -> (error: Self)
        ensures
            error matches SeatError::Custom(m) && m@ == message@,
    {
        SeatError::Custom(message.to_owned())
    }
}

impl vstd::std_specs::convert::FromSpecImpl<&str> for SeatError {
    open spec fn obeys_from_spec() -> bool {
        false
    }

    open spec fn from_spec(message: &str) -> Self {
        arbitrary()
    }
}

impl From<std::io::Error> for SeatError {
    fn from(error: std::io::Error) -> (wrapped: Self) {
        SeatError::Io(error)
    }
}

impl vstd::std_specs::convert::FromSpecImpl<std::io::Error> for SeatError {
    open spec fn obeys_from_spec() -> bool {
        true
    }

    open spec fn from_spec(error: std::io::Error) -> Self {
        SeatError::Io(error)
    }
}

/// Each error shows what its subsystem is and then what it was told, word for
/// word.
pub proof fn law_errors_show_what_they_were_told(told: String, text: Seq<char>)
    ensures
        SeatError::SocketCreate(told).shown_as(text) <==> text
            == "could not create the agent seat socket: "@ + told@,
        SeatError::Xwayland(told).shown_as(text) <==> text == "XWayland bridge failure: "@ + told@,
        SeatError::Xauth(told).shown_as(text) <==> text == "XWayland authority failure: "@ + told@,
        SeatError::PeerCredential(told).shown_as(text) <==> text == "peer credential failure: "@
            + told@,
        SeatError::Capture(told).shown_as(text) <==> text == "capture failure: "@ + told@,
        SeatError::Input(told).shown_as(text) <==> text == "input injection failure: "@ + told@,
        SeatError::Process(told).shown_as(text) <==> text == "process failure: "@ + told@,
        SeatError::Custom(told).shown_as(text) <==> text == told@,
{
    reveal_strlit("");
    assert(""@ + told@ =~= told@);
}

} // verus!
