use agent_seat_linux::interfaces::{by_name, is_denied, role_for_interface, Role};

#[test]
fn registry_covers_the_essential_globals() {
    for name in [
        "wl_compositor",
        "wl_shm",
        "wl_seat",
        "wl_output",
        "xdg_wm_base",
        "zwp_linux_dmabuf_v1",
        "wp_viewporter",
        "wp_fractional_scale_manager_v1",
        "xdg_activation_v1",
    ] {
        assert!(by_name(name).is_some(), "missing interface {name}");
        assert_eq!(by_name(name).unwrap().interface.name, name);
        assert_eq!(by_name(name).unwrap().name, name);
    }
}

#[test]
fn privileged_interfaces_are_denied() {
    assert!(is_denied("zwp_linux_dmabuf_v1"));
    assert!(is_denied("ext_session_lock_manager_v1"));
    assert!(is_denied("ext_foreign_toplevel_list_v1"));
    assert!(!is_denied("wl_compositor"));
}

#[test]
fn the_deny_list_is_complete() {
    for name in [
        "zwp_linux_dmabuf_v1",
        "ext_session_lock_manager_v1",
        "wp_security_context_manager_v1",
        "wp_drm_lease_device_v1",
        "ext_transient_seat_manager_v1",
        "zwp_input_method_manager_v2",
        "zwp_keyboard_shortcuts_inhibit_manager_v1",
        "zwp_xwayland_keyboard_grab_manager_v1",
        "ext_data_control_manager_v1",
        "ext_foreign_toplevel_list_v1",
        "zxdg_exporter_v1",
        "zxdg_exporter_v2",
        "zxdg_importer_v1",
        "zxdg_importer_v2",
    ] {
        assert!(is_denied(name), "{name} must be denied");
    }
    assert!(!is_denied(""));
    assert!(!is_denied("zxdg_exporter"));
}

#[test]
fn known_interfaces_carry_the_name_and_version_of_their_protocol() {
    let names = [
        "wl_compositor",
        "wl_subcompositor",
        "wl_shm",
        "wl_seat",
        "wl_output",
        "wl_data_device_manager",
        "zwp_linux_dmabuf_v1",
        "wp_viewporter",
        "wp_presentation",
        "xdg_wm_base",
        "wp_fractional_scale_manager_v1",
        "wp_cursor_shape_manager_v1",
        "wp_content_type_manager_v1",
        "wp_single_pixel_buffer_manager_v1",
        "wp_tearing_control_manager_v1",
        "xdg_activation_v1",
        "xdg_dialog_manager_v1",
        "ext_idle_notifier_v1",
        "xdg_system_bell_v1",
        "zxdg_decoration_manager_v1",
        "zxdg_output_manager_v1",
        "zwp_idle_inhibit_manager_v1",
        "zwp_pointer_constraints_v1",
        "zwp_relative_pointer_manager_v1",
        "zwp_primary_selection_device_manager_v1",
        "zwp_text_input_manager_v3",
        "zwp_input_timestamps_manager_v1",
        "zwp_pointer_gestures_v1",
        "zwp_tablet_manager_v2",
    ];
    for name in names {
        let known = by_name(name).expect(name);
        assert_eq!(known.name, known.interface.name, "{name}");
        assert_eq!(known.version, known.interface.version, "{name}");
        if name == "xdg_dialog_manager_v1" {
            assert_eq!(known.name, "xdg_wm_dialog_v1");
        } else {
            assert_eq!(known.name, name);
        }
    }
    assert!(by_name("unknown_vendor_v1").is_none());
    assert!(by_name("").is_none());
}

#[test]
fn roles_follow_the_interface() {
    assert!(role_for_interface("wl_surface") == Role::Surface);
    assert!(role_for_interface("wl_shm_pool") == Role::ShmPool);
    assert!(role_for_interface("wl_buffer") == Role::ShmBuffer);
    assert!(role_for_interface("zwp_linux_buffer_params_v1") == Role::DmaBufParams);
    assert!(role_for_interface("wl_seat") == Role::Seat);
    assert!(role_for_interface("wl_pointer") == Role::Pointer);
    assert!(role_for_interface("wl_keyboard") == Role::Keyboard);
    assert!(role_for_interface("zwp_text_input_v3") == Role::TextInput);
    assert!(role_for_interface("wl_callback") == Role::Callback);
    assert!(role_for_interface("wl_registry") == Role::Registry);
    assert!(role_for_interface("wl_display") == Role::Display);
    assert!(role_for_interface("wl_region") == Role::Generic);
}
