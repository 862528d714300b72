//! What holds of launched processes and of the registry as a whole.
use crate::command::{CommandPlanView, EnvView};
use crate::seat::{AppEntry, SeatView};
use vstd::prelude::*;

verus! {

// ---------------------------------------------------------------------------
// Environments
// ---------------------------------------------------------------------------

proof fn lemma_last_change(
    command: CommandPlanView,
    change: EnvView,
    key: Seq<char>,
    inherited: Option<Seq<u8>>,
)
    ensures
        ({
            let after = CommandPlanView { environment: command.environment.push(change), ..command };
            after.variable(key, inherited) == (if change.key == crate::bytes::encoded(key) {
                change.value
            } else {
                command.variable(key, inherited)
            })
        }),
{
    assert(command.environment.push(change).drop_last() =~= command.environment);
    assert(command.environment.push(change).last() == change);
}

proof fn lemma_set(
    command: CommandPlanView,
    name: Seq<char>,
    value: Seq<char>,
    key: Seq<char>,
    inherited: Option<Seq<u8>>,
)
    ensures
        command.env_text(name, value).variable(key, inherited) == (if name == key {
            Some(crate::bytes::encoded(value))
        } else {
            command.variable(key, inherited)
        }),
{
    lemma_last_change(
        command,
        EnvView { key: crate::bytes::encoded(name), value: Some(crate::bytes::encoded(value)) },
        key,
        inherited,
    );
    if name != key {
        crate::bytes::lemma_encoded_differ(name, key);
    }
}

proof fn lemma_unset(
    command: CommandPlanView,
    name: Seq<char>,
    key: Seq<char>,
    inherited: Option<Seq<u8>>,
)
    ensures
        command.env_remove(name).variable(key, inherited) == (if name == key {
            None
        } else {
            command.variable(key, inherited)
        }),
{
    lemma_last_change(
        command,
        EnvView { key: crate::bytes::encoded(name), value: None },
        key,
        inherited,
    );
    if name != key {
        crate::bytes::lemma_encoded_differ(name, key);
    }
}

/// Whether native launches leave a variable as it is configured.
pub open spec fn is_left_native(key: Seq<char>) -> bool {
    key != "WAYLAND_DISPLAY"@ && key != "GDK_BACKEND"@ && key != "GSK_RENDERER"@ && key
        != "QT_QPA_PLATFORM"@ && key != "ELECTRON_OZONE_PLATFORM_HINT"@ && key
        != "LIBGL_ALWAYS_SOFTWARE"@ && key != "DISPLAY"@
}

/// Whether bridged launches leave a variable as it is configured.
pub open spec fn is_left_bridged(key: Seq<char>) -> bool {
    key != "DISPLAY"@ && key != "XAUTHORITY"@ && key != "XDG_SESSION_TYPE"@ && key
        != "WAYLAND_DISPLAY"@ && key != "GDK_BACKEND"@ && key != "QT_QPA_PLATFORM"@ && key
        != "ELECTRON_OZONE_PLATFORM_HINT"@ && key != "SDL_VIDEODRIVER"@ && key
        != "LIBGL_ALWAYS_SOFTWARE"@ && key != "_JAVA_OPTIONS"@
}

proof fn lemma_native(
    command: CommandPlanView,
    socket: Seq<char>,
    key: Seq<char>,
    inherited: Option<Seq<u8>>,
)
    ensures
        command.native(socket).variable(key, inherited) == (if key == "DISPLAY"@ {
            None
        } else if key == "LIBGL_ALWAYS_SOFTWARE"@ {
            Some(crate::bytes::encoded("1"@))
        } else if key == "ELECTRON_OZONE_PLATFORM_HINT"@ {
            Some(crate::bytes::encoded("wayland"@))
        } else if key == "QT_QPA_PLATFORM"@ {
            Some(crate::bytes::encoded("wayland"@))
        } else if key == "GSK_RENDERER"@ {
            Some(crate::bytes::encoded("cairo"@))
        } else if key == "GDK_BACKEND"@ {
            Some(crate::bytes::encoded("wayland"@))
        } else if key == "WAYLAND_DISPLAY"@ {
            Some(crate::bytes::encoded(socket))
        } else {
            command.variable(key, inherited)
        }),
{
    let c0 = command;
    let c1 = c0.env_text("WAYLAND_DISPLAY"@, socket);
    let c2 = c1.env_text("GDK_BACKEND"@, "wayland"@);
    let c3 = c2.env_text("GSK_RENDERER"@, "cairo"@);
    let c4 = c3.env_text("QT_QPA_PLATFORM"@, "wayland"@);
    let c5 = c4.env_text("ELECTRON_OZONE_PLATFORM_HINT"@, "wayland"@);
    let c6 = c5.env_text("LIBGL_ALWAYS_SOFTWARE"@, "1"@);
    lemma_set(c0, "WAYLAND_DISPLAY"@, socket, key, inherited);
    lemma_set(c1, "GDK_BACKEND"@, "wayland"@, key, inherited);
    lemma_set(c2, "GSK_RENDERER"@, "cairo"@, key, inherited);
    lemma_set(c3, "QT_QPA_PLATFORM"@, "wayland"@, key, inherited);
    lemma_set(c4, "ELECTRON_OZONE_PLATFORM_HINT"@, "wayland"@, key, inherited);
    lemma_set(c5, "LIBGL_ALWAYS_SOFTWARE"@, "1"@, key, inherited);
    lemma_unset(c6, "DISPLAY"@, key, inherited);
}

proof fn lemma_bridged(
    command: CommandPlanView,
    display: Seq<char>,
    xauthority: Seq<char>,
    java: Seq<char>,
    key: Seq<char>,
    inherited: Option<Seq<u8>>,
)
    ensures
        command.bridged(display, xauthority, java).variable(key, inherited) == (if key
            == "_JAVA_OPTIONS"@ {
            Some(crate::bytes::encoded(java))
        } else if key == "LIBGL_ALWAYS_SOFTWARE"@ {
            Some(crate::bytes::encoded("1"@))
        } else if key == "SDL_VIDEODRIVER"@ {
            Some(crate::bytes::encoded("x11"@))
        } else if key == "ELECTRON_OZONE_PLATFORM_HINT"@ {
            Some(crate::bytes::encoded("x11"@))
        } else if key == "QT_QPA_PLATFORM"@ {
            Some(crate::bytes::encoded("xcb"@))
        } else if key == "GDK_BACKEND"@ {
            Some(crate::bytes::encoded("x11"@))
        } else if key == "WAYLAND_DISPLAY"@ {
            None
        } else if key == "XDG_SESSION_TYPE"@ {
            Some(crate::bytes::encoded("x11"@))
        } else if key == "XAUTHORITY"@ {
            Some(crate::bytes::encoded(xauthority))
        } else if key == "DISPLAY"@ {
            Some(crate::bytes::encoded(display))
        } else {
            command.variable(key, inherited)
        }),
{
    let c0 = command;
    let c1 = c0.env_text("DISPLAY"@, display);
    let c2 = c1.env_text("XAUTHORITY"@, xauthority);
    let c3 = c2.env_text("XDG_SESSION_TYPE"@, "x11"@);
    let c4 = c3.env_remove("WAYLAND_DISPLAY"@);
    let c5 = c4.env_text("GDK_BACKEND"@, "x11"@);
    let c6 = c5.env_text("QT_QPA_PLATFORM"@, "xcb"@);
    let c7 = c6.env_text("ELECTRON_OZONE_PLATFORM_HINT"@, "x11"@);
    let c8 = c7.env_text("SDL_VIDEODRIVER"@, "x11"@);
    let c9 = c8.env_text("LIBGL_ALWAYS_SOFTWARE"@, "1"@);
    lemma_set(c0, "DISPLAY"@, display, key, inherited);
    lemma_set(c1, "XAUTHORITY"@, xauthority, key, inherited);
    lemma_set(c2, "XDG_SESSION_TYPE"@, "x11"@, key, inherited);
    lemma_unset(c3, "WAYLAND_DISPLAY"@, key, inherited);
    lemma_set(c4, "GDK_BACKEND"@, "x11"@, key, inherited);
    lemma_set(c5, "QT_QPA_PLATFORM"@, "xcb"@, key, inherited);
    lemma_set(c6, "ELECTRON_OZONE_PLATFORM_HINT"@, "x11"@, key, inherited);
    lemma_set(c7, "SDL_VIDEODRIVER"@, "x11"@, key, inherited);
    lemma_set(c8, "LIBGL_ALWAYS_SOFTWARE"@, "1"@, key, inherited);
    lemma_set(c9, "_JAVA_OPTIONS"@, java, key, inherited);
}

/// However an application is configured, a native launch connects it to the
/// seat's socket and to no X display; every other variable that is not a
/// toolkit hint stays as configured.
pub proof fn law_native_launch_uses_the_seat(
    command: CommandPlanView,
    socket: Seq<char>,
    key: Seq<char>,
    inherited: Option<Seq<u8>>,
)
    ensures
        ({
            let prepared = command.native(socket);
            &&& prepared.variable("WAYLAND_DISPLAY"@, inherited) == Some(
                crate::bytes::encoded(socket),
            )
            &&& prepared.variable("DISPLAY"@, inherited) is None
            &&& is_left_native(key) ==> prepared.variable(key, inherited) == command.variable(
                key,
                inherited,
            )
            &&& prepared.program == command.program
            &&& prepared.arguments == command.arguments
            &&& prepared.current_dir == command.current_dir
        }),
{
    reveal_strlit("WAYLAND_DISPLAY");
    reveal_strlit("GDK_BACKEND");
    reveal_strlit("GSK_RENDERER");
    reveal_strlit("QT_QPA_PLATFORM");
    reveal_strlit("ELECTRON_OZONE_PLATFORM_HINT");
    reveal_strlit("LIBGL_ALWAYS_SOFTWARE");
    reveal_strlit("DISPLAY");
    assert("WAYLAND_DISPLAY"@[0] == 'W');
    assert("QT_QPA_PLATFORM"@[0] == 'Q');
    lemma_native(command, socket, "WAYLAND_DISPLAY"@, inherited);
    lemma_native(command, socket, "DISPLAY"@, inherited);
    lemma_native(command, socket, key, inherited);
}

/// However an application is configured, a bridged launch connects it to the
/// bridge's display with the bridge's secret, and not to Wayland; every other
/// variable that is not a toolkit hint stays as configured.
pub proof fn law_bridged_launch_uses_the_bridge(
    command: CommandPlanView,
    display: Seq<char>,
    xauthority: Seq<char>,
    java: Seq<char>,
    key: Seq<char>,
    inherited: Option<Seq<u8>>,
)
    ensures
        ({
            let prepared = command.bridged(display, xauthority, java);
            &&& prepared.variable("DISPLAY"@, inherited) == Some(crate::bytes::encoded(display))
            &&& prepared.variable("XAUTHORITY"@, inherited) == Some(
                crate::bytes::encoded(xauthority),
            )
            &&& prepared.variable("WAYLAND_DISPLAY"@, inherited) is None
            &&& is_left_bridged(key) ==> prepared.variable(key, inherited) == command.variable(
                key,
                inherited,
            )
            &&& prepared.program == command.program
            &&& prepared.arguments == command.arguments
            &&& prepared.current_dir == command.current_dir
        }),
{
    reveal_strlit("DISPLAY");
    reveal_strlit("XAUTHORITY");
    reveal_strlit("XDG_SESSION_TYPE");
    reveal_strlit("WAYLAND_DISPLAY");
    reveal_strlit("GDK_BACKEND");
    reveal_strlit("QT_QPA_PLATFORM");
    reveal_strlit("ELECTRON_OZONE_PLATFORM_HINT");
    reveal_strlit("SDL_VIDEODRIVER");
    reveal_strlit("LIBGL_ALWAYS_SOFTWARE");
    reveal_strlit("_JAVA_OPTIONS");
    assert("WAYLAND_DISPLAY"@[0] == 'W');
    assert("QT_QPA_PLATFORM"@[0] == 'Q');
    assert("SDL_VIDEODRIVER"@[0] == 'S');
    lemma_bridged(command, display, xauthority, java, "DISPLAY"@, inherited);
    lemma_bridged(command, display, xauthority, java, "XAUTHORITY"@, inherited);
    lemma_bridged(command, display, xauthority, java, "WAYLAND_DISPLAY"@, inherited);
    lemma_bridged(command, display, xauthority, java, key, inherited);
}

/// The last setting of a variable counts; one that is never set is inherited.
pub proof fn law_last_setting_counts(
    changes: Seq<EnvView>,
    key: Seq<u8>,
    inherited: Option<Seq<u8>>,
    i: int,
)
    ensures
        0 <= i < changes.len() && changes[i].key == key && (forall|j: int|
            i < j < changes.len() ==> (#[trigger] changes[j]).key != key)
            ==> crate::command::effective(changes, key, inherited) == changes[i].value,
        (forall|j: int| 0 <= j < changes.len() ==> (#[trigger] changes[j]).key != key)
            ==> crate::command::effective(changes, key, inherited) == inherited,
    decreases changes.len(),
{
    if changes.len() > 0 {
        let front = changes.drop_last();
        let last = changes[changes.len() - 1];
        assert(changes.last() == last);
        law_last_setting_counts(front, key, inherited, i);
        assert forall|j: int| 0 <= j < front.len() implies #[trigger] front[j] == changes[j] by {}
        if 0 <= i < changes.len() - 1 && changes[i].key == key && (forall|j: int|
            i < j < changes.len() ==> (#[trigger] changes[j]).key != key) {
            assert(last.key != key);
            assert(front[i] == changes[i]);
        }
        if forall|j: int| 0 <= j < changes.len() ==> (#[trigger] changes[j]).key != key {
            assert(last.key != key);
        }
    }
}

/// Setting and removing a variable, as the process sees it: the others stay.
pub proof fn law_variables_are_set_and_removed(
    command: CommandPlanView,
    name: Seq<char>,
    value: Seq<u8>,
    key: Seq<char>,
    inherited: Option<Seq<u8>>,
)
    ensures
        command.env(name, value).variable(name, inherited) == Some(value),
        command.env_remove(name).variable(name, inherited) is None,
        key != name ==> command.env(name, value).variable(key, inherited) == command.variable(
            key,
            inherited,
        ),
        key != name ==> command.env_remove(name).variable(key, inherited) == command.variable(
            key,
            inherited,
        ),
        command.env(name, value).program == command.program,
        command.env(name, value).arguments == command.arguments,
        command.env(name, value).current_dir == command.current_dir,
        command.env(name, value).inherit_stdout == command.inherit_stdout,
        command.env(name, value).inherit_stderr == command.inherit_stderr,
{
    let set = EnvView { key: crate::bytes::encoded(name), value: Some(value) };
    let unset = EnvView { key: crate::bytes::encoded(name), value: None };
    lemma_last_change(command, set, name, inherited);
    lemma_last_change(command, unset, name, inherited);
    lemma_last_change(command, set, key, inherited);
    lemma_last_change(command, unset, key, inherited);
    if key != name {
        crate::bytes::lemma_encoded_differ(name, key);
    }
}

proof fn lemma_native_names()
    ensures
        "WAYLAND_DISPLAY"@.len() == 15 && "WAYLAND_DISPLAY"@[0] == 'W',
        "GDK_BACKEND"@.len() == 11,
        "GSK_RENDERER"@.len() == 12,
        "QT_QPA_PLATFORM"@.len() == 15 && "QT_QPA_PLATFORM"@[0] == 'Q',
        "ELECTRON_OZONE_PLATFORM_HINT"@.len() == 28,
        "LIBGL_ALWAYS_SOFTWARE"@.len() == 21,
        "DISPLAY"@.len() == 7,
        "XAUTHORITY"@.len() == 10,
        "XDG_SESSION_TYPE"@.len() == 16,
        "SDL_VIDEODRIVER"@.len() == 15 && "SDL_VIDEODRIVER"@[0] == 'S',
        "_JAVA_OPTIONS"@.len() == 13,
{
    reveal_strlit("WAYLAND_DISPLAY");
    reveal_strlit("GDK_BACKEND");
    reveal_strlit("GSK_RENDERER");
    reveal_strlit("QT_QPA_PLATFORM");
    reveal_strlit("ELECTRON_OZONE_PLATFORM_HINT");
    reveal_strlit("LIBGL_ALWAYS_SOFTWARE");
    reveal_strlit("DISPLAY");
    reveal_strlit("XAUTHORITY");
    reveal_strlit("XDG_SESSION_TYPE");
    reveal_strlit("SDL_VIDEODRIVER");
    reveal_strlit("_JAVA_OPTIONS");
}

/// However an application is configured, a native launch tells its toolkit to
/// speak Wayland and to render in software, and leaves its output as it is.
pub proof fn law_native_launch_hints_at_wayland(
    command: CommandPlanView,
    socket: Seq<char>,
    inherited: Option<Seq<u8>>,
)
    ensures
        ({
            let prepared = command.native(socket);
            &&& prepared.variable("GDK_BACKEND"@, inherited) == Some(
                crate::bytes::encoded("wayland"@),
            )
            &&& prepared.variable("QT_QPA_PLATFORM"@, inherited) == Some(
                crate::bytes::encoded("wayland"@),
            )
            &&& prepared.variable("ELECTRON_OZONE_PLATFORM_HINT"@, inherited) == Some(
                crate::bytes::encoded("wayland"@),
            )
            &&& prepared.variable("GSK_RENDERER"@, inherited) == Some(
                crate::bytes::encoded("cairo"@),
            )
            &&& prepared.variable("LIBGL_ALWAYS_SOFTWARE"@, inherited) == Some(
                crate::bytes::encoded("1"@),
            )
            &&& prepared.inherit_stdout == command.inherit_stdout
            &&& prepared.inherit_stderr == command.inherit_stderr
        }),
{
    lemma_native_names();
    lemma_native(command, socket, "GDK_BACKEND"@, inherited);
    lemma_native(command, socket, "QT_QPA_PLATFORM"@, inherited);
    lemma_native(command, socket, "ELECTRON_OZONE_PLATFORM_HINT"@, inherited);
    lemma_native(command, socket, "GSK_RENDERER"@, inherited);
    lemma_native(command, socket, "LIBGL_ALWAYS_SOFTWARE"@, inherited);
}

/// However an application is configured, a bridged launch tells its toolkit
/// to speak X11 and to render in software, selects the given Java options,
/// and leaves its output as it is.
pub proof fn law_bridged_launch_hints_at_x11(
    command: CommandPlanView,
    display: Seq<char>,
    xauthority: Seq<char>,
    java: Seq<char>,
    inherited: Option<Seq<u8>>,
)
    ensures
        ({
            let prepared = command.bridged(display, xauthority, java);
            &&& prepared.variable("XDG_SESSION_TYPE"@, inherited) == Some(
                crate::bytes::encoded("x11"@),
            )
            &&& prepared.variable("GDK_BACKEND"@, inherited) == Some(crate::bytes::encoded("x11"@))
            &&& prepared.variable("QT_QPA_PLATFORM"@, inherited) == Some(
                crate::bytes::encoded("xcb"@),
            )
            &&& prepared.variable("ELECTRON_OZONE_PLATFORM_HINT"@, inherited) == Some(
                crate::bytes::encoded("x11"@),
            )
            &&& prepared.variable("SDL_VIDEODRIVER"@, inherited) == Some(
                crate::bytes::encoded("x11"@),
            )
            &&& prepared.variable("LIBGL_ALWAYS_SOFTWARE"@, inherited) == Some(
                crate::bytes::encoded("1"@),
            )
            &&& prepared.variable("_JAVA_OPTIONS"@, inherited) == Some(crate::bytes::encoded(java))
            &&& prepared.inherit_stdout == command.inherit_stdout
            &&& prepared.inherit_stderr == command.inherit_stderr
        }),
{
    lemma_native_names();
    lemma_bridged(command, display, xauthority, java, "XDG_SESSION_TYPE"@, inherited);
    lemma_bridged(command, display, xauthority, java, "GDK_BACKEND"@, inherited);
    lemma_bridged(command, display, xauthority, java, "QT_QPA_PLATFORM"@, inherited);
    lemma_bridged(command, display, xauthority, java, "ELECTRON_OZONE_PLATFORM_HINT"@, inherited);
    lemma_bridged(command, display, xauthority, java, "SDL_VIDEODRIVER"@, inherited);
    lemma_bridged(command, display, xauthority, java, "LIBGL_ALWAYS_SOFTWARE"@, inherited);
    lemma_bridged(command, display, xauthority, java, "_JAVA_OPTIONS"@, inherited);
}

/// A process on a seat is connected to that seat, and one on a display to
/// that display and not to Wayland, whatever was set before.
pub proof fn law_processes_connect_where_they_are_put(
    command: CommandPlanView,
    socket: Seq<char>,
    display: Seq<char>,
    xauthority: Seq<char>,
    inherited: Option<Seq<u8>>,
)
    ensures
        command.on_seat(socket).variable("WAYLAND_DISPLAY"@, inherited) == Some(
            crate::bytes::encoded(socket),
        ),
        command.on_display(display, xauthority).variable("DISPLAY"@, inherited) == Some(
            crate::bytes::encoded(display),
        ),
        command.on_display(display, xauthority).variable("XAUTHORITY"@, inherited) == Some(
            crate::bytes::encoded(xauthority),
        ),
        command.on_display(display, xauthority).variable("XDG_SESSION_TYPE"@, inherited) == Some(
            crate::bytes::encoded("x11"@),
        ),
        command.on_display(display, xauthority).variable("WAYLAND_DISPLAY"@, inherited) is None,
{
    lemma_native_names();
    lemma_set(command, "WAYLAND_DISPLAY"@, socket, "WAYLAND_DISPLAY"@, inherited);
    let c1 = command.env_text("DISPLAY"@, display);
    let c2 = c1.env_text("XAUTHORITY"@, xauthority);
    let c3 = c2.env_text("XDG_SESSION_TYPE"@, "x11"@);
    lemma_set(command, "DISPLAY"@, display, "DISPLAY"@, inherited);
    lemma_set(c1, "XAUTHORITY"@, xauthority, "DISPLAY"@, inherited);
    lemma_set(c2, "XDG_SESSION_TYPE"@, "x11"@, "DISPLAY"@, inherited);
    lemma_unset(c3, "WAYLAND_DISPLAY"@, "DISPLAY"@, inherited);
    lemma_set(c1, "XAUTHORITY"@, xauthority, "XAUTHORITY"@, inherited);
    lemma_set(c2, "XDG_SESSION_TYPE"@, "x11"@, "XAUTHORITY"@, inherited);
    lemma_unset(c3, "WAYLAND_DISPLAY"@, "XAUTHORITY"@, inherited);
    lemma_set(c2, "XDG_SESSION_TYPE"@, "x11"@, "XDG_SESSION_TYPE"@, inherited);
    lemma_unset(c3, "WAYLAND_DISPLAY"@, "XDG_SESSION_TYPE"@, inherited);
    lemma_unset(c3, "WAYLAND_DISPLAY"@, "WAYLAND_DISPLAY"@, inherited);
}

/// Java options that were there stay in front, all of them, and the X toolkit
/// is selected behind them.
pub proof fn law_java_options_are_kept(options: Seq<char>)
    ensures
        ({
            let extended = crate::harness::with_x_toolkit(options);
            let flag = "-Dawt.toolkit.name=XToolkit"@;
            &&& options.len() == 0 ==> extended == flag
            &&& options.len() > 0 ==> extended == options + seq![' '] + flag
        }),
{
    reveal_strlit("-Dawt.toolkit.name=XToolkit");
    reveal_strlit(" -Dawt.toolkit.name=XToolkit");
    if options.len() > 0 {
        assert(crate::harness::with_x_toolkit(options) =~= options + seq![' ']
            + "-Dawt.toolkit.name=XToolkit"@);
    }
}

/// The process of a configuration is the configured one: its program, its
/// arguments and its settings in order, its directory, and its output where
/// that is inherited.
pub proof fn law_configured_process_is_started(config: crate::harness::LaunchView)
    ensures
        ({
            let command = config.command();
            &&& command.program == config.program
            &&& command.arguments == config.arguments
            &&& command.environment == config.environment
            &&& command.current_dir == config.current_dir
            &&& command.inherit_stdout == config.inherit_diagnostics
            &&& command.inherit_stderr == config.inherit_diagnostics
        }),
{
}

// ---------------------------------------------------------------------------
// The registry
// ---------------------------------------------------------------------------

proof fn lemma_others_keep(apps: Seq<AppEntry>, id: u64, other: AppEntry)
    ensures
        crate::seat::others(apps, id).contains(other) <==> apps.contains(other) && other.id != id,
    decreases apps.len(),
{
    let rest = crate::seat::others(apps, id);
    if apps.len() == 0 {
        assert(!apps.contains(other));
        assert(!rest.contains(other));
    } else {
        lemma_others_keep(apps.drop_last(), id, other);
        let before = crate::seat::others(apps.drop_last(), id);
        assert(apps =~= apps.drop_last().push(apps.last()));
        assert(apps.contains(other) <==> apps.drop_last().contains(other) || other == apps.last())
            by {
            if apps.contains(other) {
                let at = choose|at: int| 0 <= at < apps.len() && apps[at] == other;
                if at < apps.len() - 1 {
                    assert(apps.drop_last()[at] == other);
                }
            }
            if apps.drop_last().contains(other) {
                let at = choose|at: int|
                    0 <= at < apps.drop_last().len() && apps.drop_last()[at] == other;
                assert(apps[at] == other);
            }
            if other == apps.last() {
                assert(apps[apps.len() - 1] == other);
            }
        }
        if apps.last().id != id {
            assert(rest == before.push(apps.last()));
            assert(rest.contains(other) <==> before.contains(other) || other == apps.last()) by {
                if rest.contains(other) {
                    let at = choose|at: int| 0 <= at < rest.len() && rest[at] == other;
                    if at < before.len() {
                        assert(before[at] == other);
                    }
                }
                if before.contains(other) {
                    let at = choose|at: int| 0 <= at < before.len() && before[at] == other;
                    assert(rest[at] == other);
                }
                if other == apps.last() {
                    assert(rest[rest.len() - 1] == other);
                }
            }
        }
    }
}

proof fn lemma_others_are_distinct(apps: Seq<AppEntry>, id: u64, limit: u64)
    requires
        forall|i: int| 0 <= i < apps.len() ==> (#[trigger] apps[i]).id < limit,
        forall|i: int, j: int|
            0 <= i < j < apps.len() ==> (#[trigger] apps[i]).id != (#[trigger] apps[j]).id,
    ensures
        ({
            let rest = crate::seat::others(apps, id);
            &&& forall|i: int| 0 <= i < rest.len() ==> (#[trigger] rest[i]).id < limit
            &&& forall|i: int, j: int|
                0 <= i < j < rest.len() ==> (#[trigger] rest[i]).id != (#[trigger] rest[j]).id
        }),
    decreases apps.len(),
{
    if apps.len() > 0 {
        let before = crate::seat::others(apps.drop_last(), id);
        lemma_others_are_distinct(apps.drop_last(), id, limit);
        if apps.last().id != id {
            assert forall|i: int| 0 <= i < before.len() implies (#[trigger] before[i]).id
                != apps.last().id by {
                lemma_others_keep(apps.drop_last(), id, before[i]);
                assert(before.contains(before[i]));
                let at = choose|at: int|
                    0 <= at < apps.drop_last().len() && apps.drop_last()[at] == before[i];
                assert(apps[at].id != apps[apps.len() - 1].id);
            }
        }
    }
}

/// Removing a connection removes exactly that one: others of the same process
/// stay, and what is bound to a live one stays bound to it.
pub proof fn law_connections_are_removed_exactly(
    seat: SeatView,
    id: u64,
    live: Set<u64>,
    other: AppEntry,
    pid: u32,
)
    requires
        seat.wf(),
    ensures
        ({
            let left = seat.removed(id, live);
            &&& left.wf()
            &&& left.apps.contains(other) <==> seat.apps.contains(other) && other.id != id
            &&& left.bound.contains_key(pid) <==> seat.bound.contains_key(pid)
                && seat.bound[pid] != id && live.contains(seat.bound[pid])
            &&& left.bound.contains_key(pid) ==> left.bound[pid] == seat.bound[pid]
        }),
{
    lemma_others_keep(seat.apps, id, other);
    lemma_others_are_distinct(seat.apps, id, seat.next_id);
}

} // verus!
