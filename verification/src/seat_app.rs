//! One connected application: capture, input and cleanup at its connection.
use crate::capture::{finish_capture, map_error, CapturedFrame};
use crate::error::SeatError;
use crate::inject::{plan_click, plan_drag, plan_key_raw, plan_scroll, PlanView};
use crate::plan::PlannerView;
use crate::proxy::{Conn, ConnView, ShmFrame};
use crate::run::{Injection, RunView};
use crate::seat::CleanupPaths;
use crate::text::join2;
use crate::typing::{plan_click_with_modifiers, plan_key_combo, plan_text, Layout};
use std::sync::Arc;
use vstd::prelude::*;

verus! {

/// Commands queued for the thread that serves a connection.
#[derive(Clone, Copy, Debug, PartialEq, Eq, Structural)]
pub enum Action {
    /// Only wakes the thread.
    Ping,
}

/// One proxied application.
pub struct SeatApp<F> {
    /// The application's process.
    pub pid: u32,
    pub conn: Conn<F>,
    pub cleanup_paths: CleanupPaths,
    pub actions: Vec<Action>,
}

impl<F> Conn<F> {
    /// Mark a connection as closed, and say which client is to be killed.
    pub fn close(&mut self) -> (client: Option<u64>)
        ensures
            client == old(self)@.client,
            final(self)@ == (ConnView { dead: true, ..old(self)@ }),
    {
        self.dead = true;
        self.client
    }

    /// The layout that the compositor sent, as a descriptor and a size.
    pub fn keymap(&self) -> (keymap: Result<(Arc<F>, u32), String>)
        ensures
            match keymap {
                Ok((fd, size)) => self@.keymap_fd == Some(fd) && size == self@.keymap_size,
                Err(message) => self@.keymap_fd is None && message@
                    == "no keymap captured yet (app has not received wl_keyboard.keymap)"@,
            },
    {
        match &self.keymap_fd {
            Some(fd) => Ok((fd.clone(), self.keymap_size)),
            None => Err(
                "no keymap captured yet (app has not received wl_keyboard.keymap)".to_owned(),
            ),
        }
    }
}

/// The error of a layout that could not be mapped.
pub fn keymap_error(reason: &str) -> (message: String)
    ensures
        message@ == "mmap of the keymap fd failed: "@ + reason@,
{
    join2("mmap of the keymap fd failed: ", reason)
}

/// The outcome of an injection, as an error of the seat.
pub fn injected(outcome: Result<(), String>) -> (result: Result<(), SeatError>)
    ensures
        match outcome {
            Ok(()) => result is Ok,
            Err(message) => result == Err::<(), SeatError>(SeatError::Input(message)),
        },
{
    match outcome {
        Ok(()) => Ok(()),
        Err(message) => Err(SeatError::Input(message)),
    }
}

impl<F> ConnView<F> {
    /// Whether a run performs the plan that is made for the surface to inject
    /// into.
    pub open spec fn injects(self, run: RunView, plan: spec_fn(Option<u64>) -> PlanView) -> bool {
        exists|target: Option<u64>| #[trigger]
            self.is_target(target) && run == RunView::begun(plan(target))
    }
}

/// Whether this is what capturing a frame comes to, given what mapping its
/// pool came to.
pub open spec fn captures_frame<F, M: Fn(&ShmFrame<F>) -> Result<Vec<u8>, String>>(
    frame: ShmFrame<F>,
    map: M,
    captured: Result<CapturedFrame, SeatError>,
) -> bool {
    match captured {
        Ok(captured) => exists|pool: Vec<u8>| #[trigger]
            call_ensures(map, (&frame,), Ok(pool)) && crate::capture::is_decodable(frame.format)
                && captured.width == frame.width && captured.height == frame.height
                && crate::capture::image_size(captured.image) == (captured.width, captured.height)
                && crate::capture::image_pixels(captured.image) == crate::capture::frame_pixels(
                frame,
                pool@,
            ),
        Err(SeatError::Capture(message)) => {
            ||| exists|reason: String| #[trigger]
                call_ensures(map, (&frame,), Err(reason)) && message@
                    == "mmap of the shm pool failed: "@ + reason@
            ||| exists|pool: Vec<u8>| #[trigger]
                call_ensures(map, (&frame,), Ok(pool)) && !crate::capture::is_decodable(
                    frame.format,
                ) && message@ == crate::capture::undecodable(frame.format)
        },
        Err(_) => false,
    }
}

/// Whether this is what capturing comes to: the frame of a main surface where
/// it lies within its pool, else an error that says what is wrong with it.
pub open spec fn captures<F, M: Fn(&ShmFrame<F>) -> Result<Vec<u8>, String>>(
    conn: ConnView<F>,
    map: M,
    captured: Result<CapturedFrame, SeatError>,
) -> bool {
    ||| exists|frame: ShmFrame<F>| #[trigger]
        conn.is_primary(Some(frame)) && crate::capture::is_readable(frame) && captures_frame(
            frame,
            map,
            captured,
        )
    ||| exists|frame: ShmFrame<F>| #[trigger]
        conn.is_primary(Some(frame)) && !crate::capture::is_readable(frame) && (
        captured matches Err(SeatError::Capture(message)) && message@ == crate::capture::unreadable(
            frame,
        ))
    ||| conn.is_primary(None) && (captured matches Err(SeatError::Capture(message)) && message@
        == "the app has no readable shm frame yet (it may use GPU buffers)"@)
}

impl<F> SeatApp<F> {
    /// An application that has just connected.
    pub fn new(pid: u32, conn: Conn<F>) -> (app: Self)
        ensures
            app.pid == pid,
            app.conn == conn,
            !app.cleanup_paths.closed,
            app.cleanup_paths.paths@ == Seq::<Vec<u8>>::empty(),
            app.actions@ == Seq::<Action>::empty(),
    {
        SeatApp { pid, conn, cleanup_paths: CleanupPaths::default(), actions: Vec::new() }
    }

    /// Queue an action.
    pub fn send_action(&mut self, action: Action)
        ensures
            final(self).actions@ == old(self).actions@.push(action),
            final(self).pid == old(self).pid,
            final(self).conn == old(self).conn,
            final(self).cleanup_paths == old(self).cleanup_paths,
    {
        self.actions.push(action);
    }

    /// Forget the queued actions.
    pub fn drain_actions(&mut self)
        ensures
            final(self).actions@ == Seq::<Action>::empty(),
            final(self).pid == old(self).pid,
            final(self).conn == old(self).conn,
            final(self).cleanup_paths == old(self).cleanup_paths,
    {
        self.actions.clear();
    }

    /// Read the application's current rendered frame. `map` gives the bytes of
    /// a frame's pool, or says why it cannot.
    pub fn capture_frame<M: Fn(&ShmFrame<F>) -> Result<Vec<u8>, String>>(&self, map: M) -> (captured:
        Result<CapturedFrame, SeatError>)
        requires
            forall|frame: &ShmFrame<F>| call_requires(map, (frame,)),
            forall|frame: &ShmFrame<F>, pool: Vec<u8>| #[trigger]
                call_ensures(map, (frame,), Ok(pool)) ==> pool@.len() == frame.pool_size,
            forall|frame: ShmFrame<F>| #[trigger]
                self.conn@.is_primary(Some(frame)) && crate::capture::is_readable(frame) ==> 3
                    * frame.width * frame.height <= usize::MAX,
        ensures
            captures(self.conn@, map, captured),
    {
        match self.conn.begin_capture() {
            Ok(frame) => match map(frame) {
                Ok(pool) => {
                    let captured: Result<CapturedFrame, SeatError> = finish_capture(
                        frame,
                        pool.as_slice(),
                    );
                    assert(captures_frame(*frame, map, captured));
                    captured
                },
                Err(reason) => {
                    let error: SeatError = map_error(reason.as_str());
                    let captured: Result<CapturedFrame, SeatError> = Err(error);
                    assert(captures_frame(*frame, map, captured));
                    captured
                },
            },
            Err(error) => Err(error),
        }
    }

    /// True once the application has produced a window-sized frame rather
    /// than a startup icon or cursor-sized helper surface.
    pub fn has_interactive_frame<M: Fn(&ShmFrame<F>) -> Result<Vec<u8>, String>>(&self, map: M) -> (interactive:
        bool)
        requires
            forall|frame: &ShmFrame<F>| call_requires(map, (frame,)),
            forall|frame: &ShmFrame<F>, pool: Vec<u8>| #[trigger]
                call_ensures(map, (frame,), Ok(pool)) ==> pool@.len() == frame.pool_size,
            forall|frame: ShmFrame<F>| #[trigger]
                self.conn@.is_primary(Some(frame)) && crate::capture::is_readable(frame) ==> 3
                    * frame.width * frame.height <= usize::MAX,
        ensures
            exists|captured: Result<CapturedFrame, SeatError>| #[trigger]
                captures(self.conn@, map, captured) && interactive == (captured matches Ok(frame)
                    && crate::capture::is_window_sized(frame.width, frame.height)),
    {
        let captured: Result<CapturedFrame, SeatError> = self.capture_frame(map);
        match &captured {
            Ok(frame) => frame.is_interactive(),
            Err(_) => false,
        }
    }

    /// Click at surface-local (x, y). `button` is a Linux input code.
    pub fn inject_click(&self, x: i32, y: i32, button: u32, count: u32) -> (run: Injection)
        ensures
            run.wf(),
            self.conn@.injects(
                run@,
                |target: Option<u64>|
                    crate::inject::click_plan(self.conn@.input, target, x, y, button, count),
            ),
    {
        let target: Option<u64> = self.conn.target_surface();
        Injection::begin(plan_click(self.conn.input, target, x, y, button, count))
    }

    /// Click while holding an optional `+`-separated modifier list.
    pub fn inject_click_with_modifiers(
        &self,
        x: i32,
        y: i32,
        button: u32,
        count: u32,
        modifiers: Option<&str>,
        layout: &Layout,
    ) -> (run: Injection)
        requires
            layout.wf(),
        ensures
            run.wf(),
            self.conn@.injects(
                run@,
                |target: Option<u64>|
                    crate::typing::modified_click_plan(
                        self.conn@.input,
                        target,
                        *layout,
                        match modifiers {
                            Some(list) => crate::text::plus_names(list@),
                            None => Seq::empty(),
                        },
                        x,
                        y,
                        button,
                        count,
                    ),
            ),
    {
        let target: Option<u64> = self.conn.target_surface();
        Injection::begin(
            plan_click_with_modifiers(
                self.conn.input,
                target,
                layout,
                modifiers,
                x,
                y,
                button,
                count,
            ),
        )
    }

    /// Scroll at surface-local (x, y) by discrete notches.
    pub fn inject_scroll(&self, x: i32, y: i32, dx: i32, dy: i32) -> (run: Injection)
        ensures
            run.wf(),
            self.conn@.injects(
                run@,
                |target: Option<u64>|
                    PlanView::only_lead(
                        PlannerView::start(self.conn@.input, target).scrolled(x, y, dx, dy).steps,
                    ),
            ),
    {
        let target: Option<u64> = self.conn.target_surface();
        Injection::begin(plan_scroll(self.conn.input, target, x, y, dx, dy))
    }

    /// Press/release a raw keycode.
    pub fn inject_key_raw(&self, keycode: u32, pressed: bool) -> (run: Injection)
        ensures
            run.wf(),
            self.conn@.injects(
                run@,
                |target: Option<u64>|
                    PlanView::only_lead(
                        PlannerView::start(self.conn@.input, target).key(keycode, pressed).steps,
                    ),
            ),
    {
        let target: Option<u64> = self.conn.target_surface();
        Injection::begin(plan_key_raw(self.conn.input, target, keycode, pressed))
    }

    /// Press a key or `+`-separated key combination in this application.
    pub fn inject_key_combo(&self, combination: &str, layout: &Layout) -> (run: Injection)
        requires
            layout.wf(),
        ensures
            run.wf(),
            self.conn@.injects(
                run@,
                |target: Option<u64>|
                    crate::typing::combination_plan(
                        self.conn@.input,
                        target,
                        *layout,
                        crate::text::plus_names(combination@),
                    ),
            ),
    {
        let target: Option<u64> = self.conn.target_surface();
        Injection::begin(plan_key_combo(self.conn.input, target, layout, combination))
    }

    /// Drag from a surface-local point along a path in this application.
    pub fn inject_drag(&self, x: i32, y: i32, path: &Vec<(i32, i32)>) -> (run: Injection)
        ensures
            run.wf(),
            self.conn@.injects(
                run@,
                |target: Option<u64>|
                    PlanView::only_lead(
                        PlannerView::start(self.conn@.input, target).dragged(x, y, path@).steps,
                    ),
            ),
    {
        let target: Option<u64> = self.conn.target_surface();
        Injection::begin(plan_drag(self.conn.input, target, x, y, path))
    }

    /// Type a string into the application. `keysyms` holds the keysym of each
    /// character.
    pub fn inject_text(&self, text: &str, keysyms: &Vec<u32>, layout: &Layout) -> (run: Injection)
        requires
            layout.wf(),
            keysyms@.len() == text@.len(),
        ensures
            run.wf(),
            self.conn@.injects(
                run@,
                |target: Option<u64>|
                    PlanView::only_lead(
                        PlannerView::start(self.conn@.input, target).text_given(
                            *layout,
                            text@,
                            keysyms@,
                        ).steps,
                    ),
            ),
    {
        let target: Option<u64> = self.conn.target_surface();
        Injection::begin(plan_text(self.conn.input, target, layout, text, keysyms))
    }

    /// Have this exact directory removed when the connection closes. One that
    /// comes too late is handed back, to be removed right away.
    pub fn add_cleanup_path(&mut self, path: Vec<u8>) -> (late: Option<Vec<u8>>)
        ensures
            final(self).cleanup_paths.closed == old(self).cleanup_paths.closed,
            if old(self).cleanup_paths.closed {
                late == Some(path) && final(self).cleanup_paths.paths@ == old(
                    self,
                ).cleanup_paths.paths@
            } else {
                late is None && final(self).cleanup_paths.paths@ == old(
                    self,
                ).cleanup_paths.paths@.push(path)
            },
            final(self).pid == old(self).pid,
            final(self).conn == old(self).conn,
            final(self).actions == old(self).actions,
    {
        self.cleanup_paths.register(path)
    }

    /// The directories to remove now that the connection is closed.
    pub fn cleanup_registered_paths(&mut self) -> (paths: Vec<Vec<u8>>)
        ensures
            final(self).cleanup_paths.closed,
            final(self).cleanup_paths.paths@ == Seq::<Vec<u8>>::empty(),
            paths@ == old(self).cleanup_paths.paths@,
            final(self).pid == old(self).pid,
            final(self).conn == old(self).conn,
            final(self).actions == old(self).actions,
    {
        self.cleanup_paths.close()
    }
}

} // verus!
