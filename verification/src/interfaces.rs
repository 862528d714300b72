//! The Wayland interfaces that the seat knows, and those it withholds.
//!
//! A global is advertised to the application where its interface is known and
//! not denied. Everything else is left out: vendor extensions an application
//! can live without, and interfaces that would let it reach outside its own
//! window (session locks, other clients' toplevels, clipboard snooping, input
//! grabs).
use crate::text::same_text;
use vstd::prelude::*;
use wayland_backend::protocol::Interface;
use wayland_client::Proxy;

verus! {

/// The static description of a Wayland interface.
#[verifier::external_type_specification]
#[verifier::external_body]
pub struct ExInterface(wayland_backend::protocol::Interface);

/// The wire name and the highest version that a description of an interface
/// holds, which are fields of it.
pub uninterp spec fn described(interface: wayland_backend::protocol::Interface) -> (Seq<char>, u32);

/// An interface of the registry: its static description, its wire name and
/// the highest version that the description covers.
#[derive(Clone, Copy)]
pub struct KnownInterface {
    pub interface: &'static Interface,
    pub name: &'static str,
    pub version: u32,
}

impl KnownInterface {
    /// Whether the name and the version are those of the description.
    pub open spec fn is_faithful(self) -> bool {
        described(*self.interface) == (self.name@, self.version)
    }
}

/// Roles tag proxied objects so the forwarder can apply protocol-specific
/// bookkeeping (capture, injection) on top of generic forwarding.
#[derive(Clone, Copy, Debug, PartialEq, Eq, Structural)]
pub enum Role {
    Display,
    Registry,
    Callback,
    Surface,
    ShmPool,
    ShmBuffer,
    DmaBufParams,
    DmaBufBuffer,
    Seat,
    Pointer,
    Keyboard,
    TextInput,
    Generic,
}

/// The role of the objects of an interface.
pub open spec fn role_of(name: Seq<char>) -> Role {
    if name == "wl_surface"@ {
        Role::Surface
    } else if name == "wl_shm_pool"@ {
        Role::ShmPool
    } else if name == "wl_buffer"@ {
        Role::ShmBuffer
    } else if name == "zwp_linux_buffer_params_v1"@ {
        Role::DmaBufParams
    } else if name == "wl_seat"@ {
        Role::Seat
    } else if name == "wl_pointer"@ {
        Role::Pointer
    } else if name == "wl_keyboard"@ {
        Role::Keyboard
    } else if name == "zwp_text_input_v3"@ {
        Role::TextInput
    } else if name == "wl_callback"@ {
        Role::Callback
    } else if name == "wl_registry"@ {
        Role::Registry
    } else if name == "wl_display"@ {
        Role::Display
    } else {
        Role::Generic
    }
}

/// The role of the objects of an interface, by the interface's wire name.
pub fn role_for_interface(name: &str) -> (role: Role)
    ensures
        role == role_of(name@),
{
    if same_text(name, "wl_surface") {
        Role::Surface
    } else if same_text(name, "wl_shm_pool") {
        Role::ShmPool
    } else if same_text(name, "wl_buffer") {
        Role::ShmBuffer
    } else if same_text(name, "zwp_linux_buffer_params_v1") {
        Role::DmaBufParams
    } else if same_text(name, "wl_seat") {
        Role::Seat
    } else if same_text(name, "wl_pointer") {
        Role::Pointer
    } else if same_text(name, "wl_keyboard") {
        Role::Keyboard
    } else if same_text(name, "zwp_text_input_v3") {
        Role::TextInput
    } else if same_text(name, "wl_callback") {
        Role::Callback
    } else if same_text(name, "wl_registry") {
        Role::Registry
    } else if same_text(name, "wl_display") {
        Role::Display
    } else {
        Role::Generic
    }
}

/// The interfaces that are never forwarded: they let a client reach beyond
/// its own surfaces, or hide its frames from capture.
pub open spec fn denied(name: Seq<char>) -> bool {
    ||| name == "zwp_linux_dmabuf_v1"@
    ||| name == "ext_session_lock_manager_v1"@
    ||| name == "wp_security_context_manager_v1"@
    ||| name == "wp_drm_lease_device_v1"@
    ||| name == "ext_transient_seat_manager_v1"@
    ||| name == "zwp_input_method_manager_v2"@
    ||| name == "zwp_keyboard_shortcuts_inhibit_manager_v1"@
    ||| name == "zwp_xwayland_keyboard_grab_manager_v1"@
    ||| name == "ext_data_control_manager_v1"@
    ||| name == "ext_foreign_toplevel_list_v1"@
    ||| name == "zxdg_exporter_v1"@
    ||| name == "zxdg_exporter_v2"@
    ||| name == "zxdg_importer_v1"@
    ||| name == "zxdg_importer_v2"@
}

/// Whether globals of this interface must not be advertised.
pub fn is_denied(name: &str) -> (withheld: bool)
    ensures
        withheld == denied(name@),
{
    same_text(name, "zwp_linux_dmabuf_v1")
        || same_text(name, "ext_session_lock_manager_v1")
        || same_text(name, "wp_security_context_manager_v1")
        || same_text(name, "wp_drm_lease_device_v1")
        || same_text(name, "ext_transient_seat_manager_v1")
        || same_text(name, "zwp_input_method_manager_v2")
        || same_text(name, "zwp_keyboard_shortcuts_inhibit_manager_v1")
        || same_text(name, "zwp_xwayland_keyboard_grab_manager_v1")
        || same_text(name, "ext_data_control_manager_v1")
        || same_text(name, "ext_foreign_toplevel_list_v1")
        || same_text(name, "zxdg_exporter_v1")
        || same_text(name, "zxdg_exporter_v2")
        || same_text(name, "zxdg_importer_v1")
        || same_text(name, "zxdg_importer_v2")
}

/// The registry: the wire name and the version of the interface that a name
/// is looked up to.
pub open spec fn registered(name: Seq<char>) -> Option<(Seq<char>, u32)> {
    if name == "wl_compositor"@ {
        Some(("wl_compositor"@, 7))
    } else if name == "wl_subcompositor"@ {
        Some(("wl_subcompositor"@, 1))
    } else if name == "wl_shm"@ {
        Some(("wl_shm"@, 3))
    } else if name == "wl_seat"@ {
        Some(("wl_seat"@, 11))
    } else if name == "wl_output"@ {
        Some(("wl_output"@, 4))
    } else if name == "wl_data_device_manager"@ {
        Some(("wl_data_device_manager"@, 4))
    } else if name == "zwp_linux_dmabuf_v1"@ {
        Some(("zwp_linux_dmabuf_v1"@, 6))
    } else if name == "wp_viewporter"@ {
        Some(("wp_viewporter"@, 1))
    } else if name == "wp_presentation"@ {
        Some(("wp_presentation"@, 2))
    } else if name == "xdg_wm_base"@ {
        Some(("xdg_wm_base"@, 7))
    } else if name == "wp_fractional_scale_manager_v1"@ {
        Some(("wp_fractional_scale_manager_v1"@, 1))
    } else if name == "wp_cursor_shape_manager_v1"@ {
        Some(("wp_cursor_shape_manager_v1"@, 2))
    } else if name == "wp_content_type_manager_v1"@ {
        Some(("wp_content_type_manager_v1"@, 1))
    } else if name == "wp_single_pixel_buffer_manager_v1"@ {
        Some(("wp_single_pixel_buffer_manager_v1"@, 1))
    } else if name == "wp_tearing_control_manager_v1"@ {
        Some(("wp_tearing_control_manager_v1"@, 1))
    } else if name == "xdg_activation_v1"@ {
        Some(("xdg_activation_v1"@, 1))
    } else if name == "xdg_dialog_manager_v1"@ {
        Some(("xdg_wm_dialog_v1"@, 1))
    } else if name == "ext_idle_notifier_v1"@ {
        Some(("ext_idle_notifier_v1"@, 2))
    } else if name == "xdg_system_bell_v1"@ {
        Some(("xdg_system_bell_v1"@, 1))
    } else if name == "zxdg_decoration_manager_v1"@ {
        Some(("zxdg_decoration_manager_v1"@, 2))
    } else if name == "zxdg_output_manager_v1"@ {
        Some(("zxdg_output_manager_v1"@, 3))
    } else if name == "zwp_idle_inhibit_manager_v1"@ {
        Some(("zwp_idle_inhibit_manager_v1"@, 1))
    } else if name == "zwp_pointer_constraints_v1"@ {
        Some(("zwp_pointer_constraints_v1"@, 1))
    } else if name == "zwp_relative_pointer_manager_v1"@ {
        Some(("zwp_relative_pointer_manager_v1"@, 1))
    } else if name == "zwp_primary_selection_device_manager_v1"@ {
        Some(("zwp_primary_selection_device_manager_v1"@, 1))
    } else if name == "zwp_text_input_manager_v3"@ {
        Some(("zwp_text_input_manager_v3"@, 2))
    } else if name == "zwp_input_timestamps_manager_v1"@ {
        Some(("zwp_input_timestamps_manager_v1"@, 1))
    } else if name == "zwp_pointer_gestures_v1"@ {
        Some(("zwp_pointer_gestures_v1"@, 3))
    } else if name == "zwp_tablet_manager_v2"@ {
        Some(("zwp_tablet_manager_v2"@, 2))
    } else {
        None
    }
}

/// Look up a known interface by its wire name: the description that is
/// registered under it, with copies of its name and version.
pub fn by_name(name: &str) -> (known: Option<KnownInterface>)
    ensures
        match known {
            Some(known) => {
                &&& registered(name@) == Some(described(*known.interface))
                &&& known.is_faithful()
            },
            None => registered(name@) is None,
        },
{
    if same_text(name, "wl_compositor") {
        Some(wl_compositor())
    } else if same_text(name, "wl_subcompositor") {
        Some(wl_subcompositor())
    } else if same_text(name, "wl_shm") {
        Some(wl_shm())
    } else if same_text(name, "wl_seat") {
        Some(wl_seat())
    } else if same_text(name, "wl_output") {
        Some(wl_output())
    } else if same_text(name, "wl_data_device_manager") {
        Some(wl_data_device_manager())
    } else if same_text(name, "zwp_linux_dmabuf_v1") {
        Some(zwp_linux_dmabuf_v1())
    } else if same_text(name, "wp_viewporter") {
        Some(wp_viewporter())
    } else if same_text(name, "wp_presentation") {
        Some(wp_presentation())
    } else if same_text(name, "xdg_wm_base") {
        Some(xdg_wm_base())
    } else if same_text(name, "wp_fractional_scale_manager_v1") {
        Some(wp_fractional_scale_manager_v1())
    } else if same_text(name, "wp_cursor_shape_manager_v1") {
        Some(wp_cursor_shape_manager_v1())
    } else if same_text(name, "wp_content_type_manager_v1") {
        Some(wp_content_type_manager_v1())
    } else if same_text(name, "wp_single_pixel_buffer_manager_v1") {
        Some(wp_single_pixel_buffer_manager_v1())
    } else if same_text(name, "wp_tearing_control_manager_v1") {
        Some(wp_tearing_control_manager_v1())
    } else if same_text(name, "xdg_activation_v1") {
        Some(xdg_activation_v1())
    } else if same_text(name, "xdg_dialog_manager_v1") {
        Some(xdg_dialog_manager_v1())
    } else if same_text(name, "ext_idle_notifier_v1") {
        Some(ext_idle_notifier_v1())
    } else if same_text(name, "xdg_system_bell_v1") {
        Some(xdg_system_bell_v1())
    } else if same_text(name, "zxdg_decoration_manager_v1") {
        Some(zxdg_decoration_manager_v1())
    } else if same_text(name, "zxdg_output_manager_v1") {
        Some(zxdg_output_manager_v1())
    } else if same_text(name, "zwp_idle_inhibit_manager_v1") {
        Some(zwp_idle_inhibit_manager_v1())
    } else if same_text(name, "zwp_pointer_constraints_v1") {
        Some(zwp_pointer_constraints_v1())
    } else if same_text(name, "zwp_relative_pointer_manager_v1") {
        Some(zwp_relative_pointer_manager_v1())
    } else if same_text(name, "zwp_primary_selection_device_manager_v1") {
        Some(zwp_primary_selection_device_manager_v1())
    } else if same_text(name, "zwp_text_input_manager_v3") {
        Some(zwp_text_input_manager_v3())
    } else if same_text(name, "zwp_input_timestamps_manager_v1") {
        Some(zwp_input_timestamps_manager_v1())
    } else if same_text(name, "zwp_pointer_gestures_v1") {
        Some(zwp_pointer_gestures_v1())
    } else if same_text(name, "zwp_tablet_manager_v2") {
        Some(zwp_tablet_manager_v2())
    } else {
        None
    }
}

/// The interface description of `WlCompositor`: its wire name and its version are
/// those of the protocol file that the type is generated from, and the copies
/// beside it are its own.
#[verifier::external_body]
fn wl_compositor() -> (known: KnownInterface)
    ensures
        known.name@ == "wl_compositor"@,
        known.version == 7,
        described(*known.interface) == (known.name@, known.version),
{
    let interface: &'static Interface = wayland_client::protocol::wl_compositor::WlCompositor::interface();
    KnownInterface { interface, name: interface.name, version: interface.version }
}

/// The interface description of `WlSubcompositor`: its wire name and its version are
/// those of the protocol file that the type is generated from, and the copies
/// beside it are its own.
#[verifier::external_body]
fn wl_subcompositor() -> (known: KnownInterface)
    ensures
        known.name@ == "wl_subcompositor"@,
        known.version == 1,
        described(*known.interface) == (known.name@, known.version),
{
    let interface: &'static Interface = wayland_client::protocol::wl_subcompositor::WlSubcompositor::interface();
    KnownInterface { interface, name: interface.name, version: interface.version }
}

/// The interface description of `WlShm`: its wire name and its version are
/// those of the protocol file that the type is generated from, and the copies
/// beside it are its own.
#[verifier::external_body]
fn wl_shm() -> (known: KnownInterface)
    ensures
        known.name@ == "wl_shm"@,
        known.version == 3,
        described(*known.interface) == (known.name@, known.version),
{
    let interface: &'static Interface = wayland_client::protocol::wl_shm::WlShm::interface();
    KnownInterface { interface, name: interface.name, version: interface.version }
}

/// The interface description of `WlSeat`: its wire name and its version are
/// those of the protocol file that the type is generated from, and the copies
/// beside it are its own.
#[verifier::external_body]
fn wl_seat() -> (known: KnownInterface)
    ensures
        known.name@ == "wl_seat"@,
        known.version == 11,
        described(*known.interface) == (known.name@, known.version),
{
    let interface: &'static Interface = wayland_client::protocol::wl_seat::WlSeat::interface();
    KnownInterface { interface, name: interface.name, version: interface.version }
}

/// The interface description of `WlOutput`: its wire name and its version are
/// those of the protocol file that the type is generated from, and the copies
/// beside it are its own.
#[verifier::external_body]
fn wl_output() -> (known: KnownInterface)
    ensures
        known.name@ == "wl_output"@,
        known.version == 4,
        described(*known.interface) == (known.name@, known.version),
{
    let interface: &'static Interface = wayland_client::protocol::wl_output::WlOutput::interface();
    KnownInterface { interface, name: interface.name, version: interface.version }
}

/// The interface description of `WlDataDeviceManager`: its wire name and its version are
/// those of the protocol file that the type is generated from, and the copies
/// beside it are its own.
#[verifier::external_body]
fn wl_data_device_manager() -> (known: KnownInterface)
    ensures
        known.name@ == "wl_data_device_manager"@,
        known.version == 4,
        described(*known.interface) == (known.name@, known.version),
{
    let interface: &'static Interface = wayland_client::protocol::wl_data_device_manager::WlDataDeviceManager::interface();
    KnownInterface { interface, name: interface.name, version: interface.version }
}

/// The interface description of `ZwpLinuxDmabufV1`: its wire name and its version are
/// those of the protocol file that the type is generated from, and the copies
/// beside it are its own.
#[verifier::external_body]
fn zwp_linux_dmabuf_v1() -> (known: KnownInterface)
    ensures
        known.name@ == "zwp_linux_dmabuf_v1"@,
        known.version == 6,
        described(*known.interface) == (known.name@, known.version),
{
    let interface: &'static Interface = wayland_protocols::wp::linux_dmabuf::zv1::client::zwp_linux_dmabuf_v1::ZwpLinuxDmabufV1::interface();
    KnownInterface { interface, name: interface.name, version: interface.version }
}

/// The interface description of `WpViewporter`: its wire name and its version are
/// those of the protocol file that the type is generated from, and the copies
/// beside it are its own.
#[verifier::external_body]
fn wp_viewporter() -> (known: KnownInterface)
    ensures
        known.name@ == "wp_viewporter"@,
        known.version == 1,
        described(*known.interface) == (known.name@, known.version),
{
    let interface: &'static Interface = wayland_protocols::wp::viewporter::client::wp_viewporter::WpViewporter::interface();
    KnownInterface { interface, name: interface.name, version: interface.version }
}

/// The interface description of `WpPresentation`: its wire name and its version are
/// those of the protocol file that the type is generated from, and the copies
/// beside it are its own.
#[verifier::external_body]
fn wp_presentation() -> (known: KnownInterface)
    ensures
        known.name@ == "wp_presentation"@,
        known.version == 2,
        described(*known.interface) == (known.name@, known.version),
{
    let interface: &'static Interface = wayland_protocols::wp::presentation_time::client::wp_presentation::WpPresentation::interface();
    KnownInterface { interface, name: interface.name, version: interface.version }
}

/// The interface description of `XdgWmBase`: its wire name and its version are
/// those of the protocol file that the type is generated from, and the copies
/// beside it are its own.
#[verifier::external_body]
fn xdg_wm_base() -> (known: KnownInterface)
    ensures
        known.name@ == "xdg_wm_base"@,
        known.version == 7,
        described(*known.interface) == (known.name@, known.version),
{
    let interface: &'static Interface = wayland_protocols::xdg::shell::client::xdg_wm_base::XdgWmBase::interface();
    KnownInterface { interface, name: interface.name, version: interface.version }
}

/// The interface description of `WpFractionalScaleManagerV1`: its wire name and its version are
/// those of the protocol file that the type is generated from, and the copies
/// beside it are its own.
#[verifier::external_body]
fn wp_fractional_scale_manager_v1() -> (known: KnownInterface)
    ensures
        known.name@ == "wp_fractional_scale_manager_v1"@,
        known.version == 1,
        described(*known.interface) == (known.name@, known.version),
{
    let interface: &'static Interface = wayland_protocols::wp::fractional_scale::v1::client::wp_fractional_scale_manager_v1::WpFractionalScaleManagerV1::interface();
    KnownInterface { interface, name: interface.name, version: interface.version }
}

/// The interface description of `WpCursorShapeManagerV1`: its wire name and its version are
/// those of the protocol file that the type is generated from, and the copies
/// beside it are its own.
#[verifier::external_body]
fn wp_cursor_shape_manager_v1() -> (known: KnownInterface)
    ensures
        known.name@ == "wp_cursor_shape_manager_v1"@,
        known.version == 2,
        described(*known.interface) == (known.name@, known.version),
{
    let interface: &'static Interface = wayland_protocols::wp::cursor_shape::v1::client::wp_cursor_shape_manager_v1::WpCursorShapeManagerV1::interface();
    KnownInterface { interface, name: interface.name, version: interface.version }
}

/// The interface description of `WpContentTypeManagerV1`: its wire name and its version are
/// those of the protocol file that the type is generated from, and the copies
/// beside it are its own.
#[verifier::external_body]
fn wp_content_type_manager_v1() -> (known: KnownInterface)
    ensures
        known.name@ == "wp_content_type_manager_v1"@,
        known.version == 1,
        described(*known.interface) == (known.name@, known.version),
{
    let interface: &'static Interface = wayland_protocols::wp::content_type::v1::client::wp_content_type_manager_v1::WpContentTypeManagerV1::interface();
    KnownInterface { interface, name: interface.name, version: interface.version }
}

/// The interface description of `WpSinglePixelBufferManagerV1`: its wire name and its version are
/// those of the protocol file that the type is generated from, and the copies
/// beside it are its own.
#[verifier::external_body]
fn wp_single_pixel_buffer_manager_v1() -> (known: KnownInterface)
    ensures
        known.name@ == "wp_single_pixel_buffer_manager_v1"@,
        known.version == 1,
        described(*known.interface) == (known.name@, known.version),
{
    let interface: &'static Interface = wayland_protocols::wp::single_pixel_buffer::v1::client::wp_single_pixel_buffer_manager_v1::WpSinglePixelBufferManagerV1::interface();
    KnownInterface { interface, name: interface.name, version: interface.version }
}

/// The interface description of `WpTearingControlManagerV1`: its wire name and its version are
/// those of the protocol file that the type is generated from, and the copies
/// beside it are its own.
#[verifier::external_body]
fn wp_tearing_control_manager_v1() -> (known: KnownInterface)
    ensures
        known.name@ == "wp_tearing_control_manager_v1"@,
        known.version == 1,
        described(*known.interface) == (known.name@, known.version),
{
    let interface: &'static Interface = wayland_protocols::wp::tearing_control::v1::client::wp_tearing_control_manager_v1::WpTearingControlManagerV1::interface();
    KnownInterface { interface, name: interface.name, version: interface.version }
}

/// The interface description of `XdgActivationV1`: its wire name and its version are
/// those of the protocol file that the type is generated from, and the copies
/// beside it are its own.
#[verifier::external_body]
fn xdg_activation_v1() -> (known: KnownInterface)
    ensures
        known.name@ == "xdg_activation_v1"@,
        known.version == 1,
        described(*known.interface) == (known.name@, known.version),
{
    let interface: &'static Interface = wayland_protocols::xdg::activation::v1::client::xdg_activation_v1::XdgActivationV1::interface();
    KnownInterface { interface, name: interface.name, version: interface.version }
}

/// The interface description of `XdgWmDialogV1`: its wire name and its version are
/// those of the protocol file that the type is generated from, and the copies
/// beside it are its own.
#[verifier::external_body]
fn xdg_dialog_manager_v1() -> (known: KnownInterface)
    ensures
        known.name@ == "xdg_wm_dialog_v1"@,
        known.version == 1,
        described(*known.interface) == (known.name@, known.version),
{
    let interface: &'static Interface = wayland_protocols::xdg::dialog::v1::client::xdg_wm_dialog_v1::XdgWmDialogV1::interface();
    KnownInterface { interface, name: interface.name, version: interface.version }
}

/// The interface description of `ExtIdleNotifierV1`: its wire name and its version are
/// those of the protocol file that the type is generated from, and the copies
/// beside it are its own.
#[verifier::external_body]
fn ext_idle_notifier_v1() -> (known: KnownInterface)
    ensures
        known.name@ == "ext_idle_notifier_v1"@,
        known.version == 2,
        described(*known.interface) == (known.name@, known.version),
{
    let interface: &'static Interface = wayland_protocols::ext::idle_notify::v1::client::ext_idle_notifier_v1::ExtIdleNotifierV1::interface();
    KnownInterface { interface, name: interface.name, version: interface.version }
}

/// The interface description of `XdgSystemBellV1`: its wire name and its version are
/// those of the protocol file that the type is generated from, and the copies
/// beside it are its own.
#[verifier::external_body]
fn xdg_system_bell_v1() -> (known: KnownInterface)
    ensures
        known.name@ == "xdg_system_bell_v1"@,
        known.version == 1,
        described(*known.interface) == (known.name@, known.version),
{
    let interface: &'static Interface = wayland_protocols::xdg::system_bell::v1::client::xdg_system_bell_v1::XdgSystemBellV1::interface();
    KnownInterface { interface, name: interface.name, version: interface.version }
}

/// The interface description of `ZxdgDecorationManagerV1`: its wire name and its version are
/// those of the protocol file that the type is generated from, and the copies
/// beside it are its own.
#[verifier::external_body]
fn zxdg_decoration_manager_v1() -> (known: KnownInterface)
    ensures
        known.name@ == "zxdg_decoration_manager_v1"@,
        known.version == 2,
        described(*known.interface) == (known.name@, known.version),
{
    let interface: &'static Interface = wayland_protocols::xdg::decoration::zv1::client::zxdg_decoration_manager_v1::ZxdgDecorationManagerV1::interface();
    KnownInterface { interface, name: interface.name, version: interface.version }
}

/// The interface description of `ZxdgOutputManagerV1`: its wire name and its version are
/// those of the protocol file that the type is generated from, and the copies
/// beside it are its own.
#[verifier::external_body]
fn zxdg_output_manager_v1() -> (known: KnownInterface)
    ensures
        known.name@ == "zxdg_output_manager_v1"@,
        known.version == 3,
        described(*known.interface) == (known.name@, known.version),
{
    let interface: &'static Interface = wayland_protocols::xdg::xdg_output::zv1::client::zxdg_output_manager_v1::ZxdgOutputManagerV1::interface();
    KnownInterface { interface, name: interface.name, version: interface.version }
}

/// The interface description of `ZwpIdleInhibitManagerV1`: its wire name and its version are
/// those of the protocol file that the type is generated from, and the copies
/// beside it are its own.
#[verifier::external_body]
fn zwp_idle_inhibit_manager_v1() -> (known: KnownInterface)
    ensures
        known.name@ == "zwp_idle_inhibit_manager_v1"@,
        known.version == 1,
        described(*known.interface) == (known.name@, known.version),
{
    let interface: &'static Interface = wayland_protocols::wp::idle_inhibit::zv1::client::zwp_idle_inhibit_manager_v1::ZwpIdleInhibitManagerV1::interface();
    KnownInterface { interface, name: interface.name, version: interface.version }
}

/// The interface description of `ZwpPointerConstraintsV1`: its wire name and its version are
/// those of the protocol file that the type is generated from, and the copies
/// beside it are its own.
#[verifier::external_body]
fn zwp_pointer_constraints_v1() -> (known: KnownInterface)
    ensures
        known.name@ == "zwp_pointer_constraints_v1"@,
        known.version == 1,
        described(*known.interface) == (known.name@, known.version),
{
    let interface: &'static Interface = wayland_protocols::wp::pointer_constraints::zv1::client::zwp_pointer_constraints_v1::ZwpPointerConstraintsV1::interface();
    KnownInterface { interface, name: interface.name, version: interface.version }
}

/// The interface description of `ZwpRelativePointerManagerV1`: its wire name and its version are
/// those of the protocol file that the type is generated from, and the copies
/// beside it are its own.
#[verifier::external_body]
fn zwp_relative_pointer_manager_v1() -> (known: KnownInterface)
    ensures
        known.name@ == "zwp_relative_pointer_manager_v1"@,
        known.version == 1,
        described(*known.interface) == (known.name@, known.version),
{
    let interface: &'static Interface = wayland_protocols::wp::relative_pointer::zv1::client::zwp_relative_pointer_manager_v1::ZwpRelativePointerManagerV1::interface();
    KnownInterface { interface, name: interface.name, version: interface.version }
}

/// The interface description of `ZwpPrimarySelectionDeviceManagerV1`: its wire name and its version are
/// those of the protocol file that the type is generated from, and the copies
/// beside it are its own.
#[verifier::external_body]
fn zwp_primary_selection_device_manager_v1() -> (known: KnownInterface)
    ensures
        known.name@ == "zwp_primary_selection_device_manager_v1"@,
        known.version == 1,
        described(*known.interface) == (known.name@, known.version),
{
    let interface: &'static Interface = wayland_protocols::wp::primary_selection::zv1::client::zwp_primary_selection_device_manager_v1::ZwpPrimarySelectionDeviceManagerV1::interface();
    KnownInterface { interface, name: interface.name, version: interface.version }
}

/// The interface description of `ZwpTextInputManagerV3`: its wire name and its version are
/// those of the protocol file that the type is generated from, and the copies
/// beside it are its own.
#[verifier::external_body]
fn zwp_text_input_manager_v3() -> (known: KnownInterface)
    ensures
        known.name@ == "zwp_text_input_manager_v3"@,
        known.version == 2,
        described(*known.interface) == (known.name@, known.version),
{
    let interface: &'static Interface = wayland_protocols::wp::text_input::zv3::client::zwp_text_input_manager_v3::ZwpTextInputManagerV3::interface();
    KnownInterface { interface, name: interface.name, version: interface.version }
}

/// The interface description of `ZwpInputTimestampsManagerV1`: its wire name and its version are
/// those of the protocol file that the type is generated from, and the copies
/// beside it are its own.
#[verifier::external_body]
fn zwp_input_timestamps_manager_v1() -> (known: KnownInterface)
    ensures
        known.name@ == "zwp_input_timestamps_manager_v1"@,
        known.version == 1,
        described(*known.interface) == (known.name@, known.version),
{
    let interface: &'static Interface = wayland_protocols::wp::input_timestamps::zv1::client::zwp_input_timestamps_manager_v1::ZwpInputTimestampsManagerV1::interface();
    KnownInterface { interface, name: interface.name, version: interface.version }
}

/// The interface description of `ZwpPointerGesturesV1`: its wire name and its version are
/// those of the protocol file that the type is generated from, and the copies
/// beside it are its own.
#[verifier::external_body]
fn zwp_pointer_gestures_v1() -> (known: KnownInterface)
    ensures
        known.name@ == "zwp_pointer_gestures_v1"@,
        known.version == 3,
        described(*known.interface) == (known.name@, known.version),
{
    let interface: &'static Interface = wayland_protocols::wp::pointer_gestures::zv1::client::zwp_pointer_gestures_v1::ZwpPointerGesturesV1::interface();
    KnownInterface { interface, name: interface.name, version: interface.version }
}

/// The interface description of `ZwpTabletManagerV2`: its wire name and its version are
/// those of the protocol file that the type is generated from, and the copies
/// beside it are its own.
#[verifier::external_body]
fn zwp_tablet_manager_v2() -> (known: KnownInterface)
    ensures
        known.name@ == "zwp_tablet_manager_v2"@,
        known.version == 2,
        described(*known.interface) == (known.name@, known.version),
{
    let interface: &'static Interface = wayland_protocols::wp::tablet::zv2::client::zwp_tablet_manager_v2::ZwpTabletManagerV2::interface();
    KnownInterface { interface, name: interface.name, version: interface.version }
}

} // verus!
