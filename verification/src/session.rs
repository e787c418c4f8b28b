//! The lock session: one resolution, window and effect for every output,
//! and the one input that they share.
//!
//! The session decides what a turn of the dispatch loop does. The loop
//! itself, which talks to the display server, runs the blur filter and asks
//! the authentication service, belongs to the program around this library:
//! it performs what the session hands out and reports back what came of it.

use vstd::prelude::*;
use vstd::slice::slice_to_vec;

use crate::color::Color;
use crate::effects::blur::{display_ready, Blur, BlurView};
use crate::input::{Credentials, Input, InputView, KeyState};
use crate::window::{
    creation, presentation, repeated, Resolution, SurfaceRequest, Window, WindowView,
};

verus! {

/// What was captured of one output when the lock began.
pub struct Capture {
    /// Resolution of the output.
    pub resolution: Resolution,
    /// The raw pixels of the output, four bytes each, as the capture
    /// service returned them.
    pub pixels: Vec<u8>,
}

impl Capture {
    /// A lock can be made of this capture: a buffer can be allocated for its
    /// resolution, and it holds four bytes for every pixel.
    pub open spec fn fits(self) -> bool {
        &&& self.resolution.allocatable()
        &&& self.pixels@.len() == self.resolution.byte_len()
    }

    /// Whether a lock can be made of this capture.
    pub fn is_fit(&self) -> (fit: bool)
        ensures
            fit == self.fits(),
    {
        if !self.resolution.can_allocate() {
            return false;
        }
        proof {
            crate::window::lemma_allocatable_sides(self.resolution);
        }
        let area: u32 = self.resolution.size();
        self.pixels.len() as u64 == 4 * (area as u64)
    }
}

/// What a turn of the dispatch loop does once the queued events are handled.
#[derive(Clone, Copy, Debug, PartialEq, Eq, Structural)]
pub enum Turn {
    /// Some effect has a pass pending: apply one pass of the filter to every
    /// pending image, and start the next turn without waiting.
    Refine,
    /// No pass is pending: wait for events, then settle.
    Await,
}

/// How a turn of the dispatch loop ends.
#[derive(Clone, Copy, Debug, PartialEq, Eq, Structural)]
pub enum Outcome {
    /// Nobody is logged in: the outputs stay locked.
    Locked,
    /// The user is logged in. This many unlock requests go to the display
    /// server, one for every output, and the loop ends.
    Unlocked { requests: usize },
}

/// The lock of one output.
struct Output {
    resolution: Resolution,
    window: Window,
    blur: Blur,
}

/// What the lock of one output holds.
pub struct OutputView {
    /// The resolution that the output last reported.
    pub resolution: Resolution,
    /// The window shown on the output.
    pub window: WindowView,
    /// The effect that obscures the output.
    pub blur: BlurView,
}

impl View for Output {
    type V = OutputView;

    closed spec fn view(&self) -> OutputView {
        OutputView { resolution: self.resolution, window: self.window@, blur: self.blur@ }
    }
}

/// The outputs that are locked together, and the input that unlocks them.
pub struct Session {
    outputs: Vec<Output>,
    input: Input,
}

/// What a [`Session`] holds.
pub struct SessionView {
    /// The locks, in the order of the outputs.
    pub outputs: Seq<OutputView>,
    /// The input that the outputs share.
    pub input: InputView,
}

impl OutputView {
    /// The window and the effect are well formed.
    pub open spec fn wf(self) -> bool {
        self.window.wf() && self.blur.wf()
    }

    /// The lock after a mode notification of its output.
    pub open spec fn after_mode(self, flags: u32, width: i32, height: i32) -> OutputView {
        OutputView { resolution: self.resolution.after_mode(flags, width, height), ..self }
    }

    /// The lock after a liveness check of its window.
    pub open spec fn pinged(self, serial: u32) -> OutputView {
        OutputView {
            window: WindowView {
                requests: self.window.requests.push(SurfaceRequest::Pong { serial }),
                ..self.window
            },
            ..self
        }
    }

    /// The lock after the requests queued by its window were handed out.
    pub open spec fn drained(self) -> OutputView {
        OutputView { window: WindowView { requests: Seq::empty(), ..self.window }, ..self }
    }

    /// The lock of a freshly captured output: a window that shows the
    /// display-ready capture, and an effect with `passes` passes due.
    pub open spec fn locked(resolution: Resolution, pixels: Seq<u8>, passes: u32) -> OutputView {
        let image = display_ready(pixels, resolution.w as nat, resolution.h as nat);
        OutputView {
            resolution,
            window: WindowView {
                buffer: image,
                resolution,
                requests: creation(resolution) + presentation(resolution),
            },
            blur: BlurView { image, resolution, passes: passes as nat },
        }
    }

    /// The lock after the filter handed back `filtered` for its pending
    /// image: the effect takes it and, if a pass was due, publishes it.
    pub open spec fn refined(self, filtered: Seq<u8>) -> OutputView {
        OutputView {
            window: if self.blur.passes > 0 {
                self.window.published(self.blur.resolution, filtered)
            } else {
                self.window
            },
            blur: self.blur.refined(filtered),
            ..self
        }
    }

    /// The lock with its window filled with `color`.
    pub open spec fn colored(self, color: Color) -> OutputView {
        OutputView {
            window: self.window.published(
                self.resolution,
                repeated(color.bytes(), self.resolution.area() as nat),
            ),
            ..self
        }
    }
}

impl SessionView {
    /// Every lock is well formed.
    pub open spec fn wf(self) -> bool {
        forall|i: int| 0 <= i < self.outputs.len() ==> (#[trigger] self.outputs[i]).wf()
    }

    /// The session with the lock of one output replaced.
    pub open spec fn with_output(self, index: int, output: OutputView) -> SessionView {
        SessionView { outputs: self.outputs.update(index, output), ..self }
    }

    /// What the next turn of the dispatch loop does.
    pub open spec fn turn(self) -> Turn {
        if exists|i: int| 0 <= i < self.outputs.len() && (#[trigger] self.outputs[i]).blur.passes > 0 {
            Turn::Refine
        } else {
            Turn::Await
        }
    }

    /// Every output reports a resolution that a buffer can be allocated for.
    pub open spec fn allocatable(self) -> bool {
        forall|i: int| 0 <= i < self.outputs.len() ==> (#[trigger] self.outputs[i]).resolution.allocatable()
    }

    /// The turn can be ended: no feedback colour is due to the windows, or
    /// every output reports a resolution that a buffer can be allocated for.
    pub open spec fn can_settle(self) -> bool {
        self.input.logged_in || self.input.new_color is None || self.allocatable()
    }

    /// How a turn ends.
    pub open spec fn outcome(self) -> Outcome {
        if self.input.logged_in {
            Outcome::Unlocked { requests: self.outputs.len() as usize }
        } else {
            Outcome::Locked
        }
    }

    /// The session at the end of a turn. After a login all locks are given
    /// up together. Otherwise a pending feedback colour is taken from the
    /// input and fills the window of every output.
    pub open spec fn settled(self) -> SessionView {
        if self.input.logged_in {
            SessionView { outputs: Seq::empty(), ..self }
        } else {
            match self.input.new_color {
                Some(color) => SessionView {
                    outputs: Seq::new(self.outputs.len(), |i: int| self.outputs[i].colored(color)),
                    input: InputView { new_color: None, ..self.input },
                },
                None => self,
            }
        }
    }
}

/// What can happen to a session. Every operation that changes a session is
/// one of these events: its contract says that the session afterwards is
/// [`SessionView::after`] of the event.
pub enum SessionEvent {
    /// A key event with the composed text that it carries.
    Key { keysym: u32, state: KeyState, text: Option<Seq<char>> },
    /// The verdict of the authentication service.
    Verdict { accepted: bool },
    /// The blur filter handed back the pending image of an output.
    Refine { index: int, filtered: Seq<u8> },
    /// A mode notification of an output.
    Mode { index: int, flags: u32, width: i32, height: i32 },
    /// A liveness check of the window of an output.
    Ping { index: int, serial: u32 },
    /// The requests queued by the window of an output were handed out.
    Drain { index: int },
    /// The end of a turn of the dispatch loop.
    Settle,
}

impl SessionView {
    /// The session after one event. An event for an output that the session
    /// does not hold changes nothing.
    pub open spec fn after(self, event: SessionEvent) -> SessionView {
        match event {
            SessionEvent::Key { keysym, state, text } => SessionView {
                input: self.input.after_key(keysym, state, text),
                ..self
            },
            SessionEvent::Verdict { accepted } => SessionView {
                input: self.input.after_verdict(accepted),
                ..self
            },
            SessionEvent::Refine { index, filtered } => if 0 <= index < self.outputs.len() {
                self.with_output(index, self.outputs[index].refined(filtered))
            } else {
                self
            },
            SessionEvent::Mode { index, flags, width, height } => if 0 <= index
                < self.outputs.len() {
                self.with_output(index, self.outputs[index].after_mode(flags, width, height))
            } else {
                self
            },
            SessionEvent::Ping { index, serial } => if 0 <= index < self.outputs.len() {
                self.with_output(index, self.outputs[index].pinged(serial))
            } else {
                self
            },
            SessionEvent::Drain { index } => if 0 <= index < self.outputs.len() {
                self.with_output(index, self.outputs[index].drained())
            } else {
                self
            },
            SessionEvent::Settle => self.settled(),
        }
    }

    /// The session after a sequence of events, the first one first.
    pub open spec fn after_all(self, events: Seq<SessionEvent>) -> SessionView
        decreases events.len(),
    {
        if events.len() == 0 {
            self
        } else {
            self.after_all(events.drop_last()).after(events.last())
        }
    }
}

/// One event either leaves the number of locks as it is, or it is the end of
/// a turn with the user logged in, which gives up all of them and is owed
/// one unlock request for each.
pub proof fn lemma_locks_after_event(session: SessionView, event: SessionEvent)
    requires
        session.outputs.len() <= usize::MAX,
    ensures
        session.after(event).outputs.len() == session.outputs.len() || (event is Settle
            && session.input.logged_in && session.after(event).outputs.len() == 0
            && session.outcome() == (Outcome::Unlocked { requests: session.outputs.len() as usize })),
        session.input.logged_in ==> session.after(event).input.logged_in,
{
}

/// Whatever happens to a session of `k` locks, it holds either all `k` of
/// them or none: the outputs are never unlocked in part. It holds none only
/// once the user is logged in.
pub proof fn lemma_locks_are_kept_together(session: SessionView, events: Seq<SessionEvent>)
    requires
        session.outputs.len() <= usize::MAX,
    ensures
        session.after_all(events).outputs.len() == session.outputs.len() || session.after_all(
            events,
        ).outputs.len() == 0,
        session.after_all(events).outputs.len() != session.outputs.len() ==> session.after_all(
            events,
        ).input.logged_in,
        session.input.logged_in ==> session.after_all(events).input.logged_in,
    decreases events.len(),
{
    if events.len() > 0 {
        lemma_locks_are_kept_together(session, events.drop_last());
        lemma_locks_after_event(session.after_all(events.drop_last()), events.last());
    }
}

impl View for Session {
    type V = SessionView;

    closed spec fn view(&self) -> SessionView {
        SessionView {
            outputs: Seq::new(self.outputs@.len(), |i: int| self.outputs@[i]@),
            input: self.input@,
        }
    }
}

impl Session {
    /// Locks every captured output for the user `username`: creates, in the
    /// order of `captures`, one window and one effect with `passes` blur
    /// passes due for each of them, and the input that they share.
    pub fn new(username: String, captures: &[Capture], passes: u32) -> (session: Self)
        requires
            forall|i: int| 0 <= i < captures@.len() ==> (#[trigger] captures@[i]).fits(),
        ensures
            session@.wf(),
            session@.outputs.len() == captures@.len(),
            forall|i: int|
                0 <= i < captures@.len() ==> #[trigger] session@.outputs[i] == OutputView::locked(
                    captures@[i].resolution,
                    captures@[i].pixels@,
                    passes,
                ),
            session@.input == InputView::fresh(username@),
    {
        let mut outputs: Vec<Output> = Vec::new();
        let mut i: usize = 0;
        while i < captures.len()
            invariant
                i <= captures@.len(),
                outputs@.len() == i,
                forall|j: int| 0 <= j < captures@.len() ==> (#[trigger] captures@[j]).fits(),
                forall|j: int| 0 <= j < i ==> (#[trigger] outputs@[j])@.wf(),
                forall|j: int|
                    0 <= j < i ==> (#[trigger] outputs@[j])@ == OutputView::locked(
                        captures@[j].resolution,
                        captures@[j].pixels@,
                        passes,
                    ),
            decreases captures@.len() - i,
        {
            let resolution = captures[i].resolution;
            let mut window = Window::new(resolution);
            let pixels = slice_to_vec(captures[i].pixels.as_slice());
            let blur = Blur::new(resolution, pixels, passes, &mut window);
            outputs.push(Output { resolution, window, blur });
            i += 1;
        }
        Session { outputs, input: Input::new(username) }
    }

    /// Locks every captured output, see [`Session::new`], if a lock can be
    /// made of every capture. One capture that does not fit — an output
    /// without pixels, or pixels that do not match the resolution — gives no
    /// session at all.
    pub fn try_new(username: String, captures: &[Capture], passes: u32) -> (session: Option<Self>)
        ensures
            session is Some <==> forall|i: int|
                0 <= i < captures@.len() ==> (#[trigger] captures@[i]).fits(),
            session matches Some(session) ==> {
                &&& session@.wf()
                &&& session@.outputs.len() == captures@.len()
                &&& forall|i: int|
                    0 <= i < captures@.len() ==> #[trigger] session@.outputs[i]
                        == OutputView::locked(
                        captures@[i].resolution,
                        captures@[i].pixels@,
                        passes,
                    )
                &&& session@.input == InputView::fresh(username@)
            },
    {
        let mut i: usize = 0;
        while i < captures.len()
            invariant
                i <= captures@.len(),
                forall|j: int| 0 <= j < i ==> (#[trigger] captures@[j]).fits(),
            decreases captures@.len() - i,
        {
            if !captures[i].is_fit() {
                return None;
            }
            i += 1;
        }
        Some(Session::new(username, captures, passes))
    }

    /// Number of locked outputs.
    pub fn outputs(&self) -> (count: usize)
        ensures
            count == self@.outputs.len(),
    {
        self.outputs.len()
    }

    /// The resolution that an output last reported.
    pub fn resolution(&self, index: usize) -> (resolution: Resolution)
        requires
            index < self@.outputs.len(),
        ensures
            resolution == self@.outputs[index as int].resolution,
    {
        self.outputs[index].resolution
    }

    /// The window of an output.
    pub fn window(&self, index: usize) -> (window: &Window)
        requires
            index < self@.outputs.len(),
        ensures
            window@ == self@.outputs[index as int].window,
    {
        &self.outputs[index].window
    }

    /// The effect of an output.
    pub fn blur(&self, index: usize) -> (blur: &Blur)
        requires
            index < self@.outputs.len(),
        ensures
            blur@ == self@.outputs[index as int].blur,
    {
        &self.outputs[index].blur
    }

    /// The input that the outputs share.
    pub fn input(&self) -> (input: &Input)
        ensures
            input@ == self@.input,
    {
        &self.input
    }

    /// What the next turn of the dispatch loop does.
    pub fn turn(&self) -> (turn: Turn)
        ensures
            turn == self@.turn(),
    {
        let mut i: usize = 0;
        while i < self.outputs.len()
            invariant
                i <= self.outputs@.len(),
                forall|j: int| 0 <= j < i ==> (#[trigger] self@.outputs[j]).blur.passes == 0,
            decreases self.outputs@.len() - i,
        {
            if self.outputs[i].blur.pending_pass().is_some() {
                assert(self@.outputs[i as int].blur.passes > 0);
                return Turn::Refine;
            }
            i += 1;
        }
        Turn::Await
    }

    /// The image of an output that the blur filter is to be applied to in
    /// this turn, or `None` when its effect is steady.
    pub fn pending_pass(&self, index: usize) -> (image: Option<&[u8]>)
        requires
            index < self@.outputs.len(),
        ensures
            image is Some <==> self@.outputs[index as int].blur.pending() is Some,
            image matches Some(bytes) ==> self@.outputs[index as int].blur.pending() == Some(
                bytes@,
            ),
    {
        self.outputs[index].blur.pending_pass()
    }

    /// Takes `filtered`, the pending image of an output after one pass of
    /// the blur filter: its effect stores it and publishes it into its
    /// window. No other output changes.
    pub fn refine(&mut self, index: usize, filtered: Vec<u8>)
        requires
            old(self)@.wf(),
            index < old(self)@.outputs.len(),
            filtered@.len() == old(self)@.outputs[index as int].blur.image.len(),
        ensures
            final(self)@.wf(),
            final(self)@ == old(self)@.with_output(
                index as int,
                old(self)@.outputs[index as int].refined(filtered@),
            ),
            final(self)@ == old(self)@.after(
                (SessionEvent::Refine { index: index as int, filtered: filtered@ }),
            ),
    {
        let output = &mut self.outputs[index];
        output.blur.blur(filtered, &mut output.window);
        assert(final(self)@.outputs =~= old(self)@.outputs.update(
            index as int,
            old(self)@.outputs[index as int].refined(filtered@),
        ));
    }

    /// Handles a mode notification of an output, see [`Resolution::mode`].
    /// Nothing else changes.
    pub fn mode(&mut self, index: usize, flags: u32, width: i32, height: i32)
        requires
            index < old(self)@.outputs.len(),
        ensures
            old(self)@.wf() ==> final(self)@.wf(),
            final(self)@ == old(self)@.with_output(
                index as int,
                old(self)@.outputs[index as int].after_mode(flags, width, height),
            ),
            final(self)@ == old(self)@.after(
                (SessionEvent::Mode { index: index as int, flags, width, height }),
            ),
    {
        self.outputs[index].resolution.mode(flags, width, height);
        assert(final(self)@.outputs =~= old(self)@.outputs.update(
            index as int,
            old(self)@.outputs[index as int].after_mode(flags, width, height),
        ));
    }

    /// Answers a liveness check of the window of an output, see
    /// [`Window::ping`]. Nothing else changes.
    pub fn ping(&mut self, index: usize, serial: u32)
        requires
            index < old(self)@.outputs.len(),
        ensures
            old(self)@.wf() ==> final(self)@.wf(),
            final(self)@ == old(self)@.with_output(
                index as int,
                old(self)@.outputs[index as int].pinged(serial),
            ),
            final(self)@ == old(self)@.after((SessionEvent::Ping { index: index as int, serial })),
    {
        self.outputs[index].window.ping(serial);
        assert(final(self)@.outputs =~= old(self)@.outputs.update(
            index as int,
            old(self)@.outputs[index as int].pinged(serial),
        ));
    }

    /// Hands out the requests queued by the window of an output, see
    /// [`Window::take_requests`]. Nothing else changes.
    pub fn take_requests(&mut self, index: usize) -> (requests: Vec<SurfaceRequest>)
        requires
            index < old(self)@.outputs.len(),
        ensures
            old(self)@.wf() ==> final(self)@.wf(),
            requests@ == old(self)@.outputs[index as int].window.requests,
            final(self)@ == old(self)@.with_output(
                index as int,
                old(self)@.outputs[index as int].drained(),
            ),
            final(self)@ == old(self)@.after((SessionEvent::Drain { index: index as int })),
    {
        let requests = self.outputs[index].window.take_requests();
        assert(final(self)@.outputs =~= old(self)@.outputs.update(
            index as int,
            old(self)@.outputs[index as int].drained(),
        ));
        requests
    }

    /// Handles a key event, see [`Input::key`]. No output changes.
    pub fn key(&mut self, keysym: u32, state: KeyState, text: Option<String>) -> (submit: Option<
        Credentials,
    >)
        ensures
            old(self)@.wf() ==> final(self)@.wf(),
            final(self)@ == (SessionView {
                input: old(self)@.input.after_key(
                    keysym,
                    state,
                    match text {
                        Some(text) => Some(text@),
                        None => None,
                    },
                ),
                ..old(self)@
            }),
            submit is Some <==> old(self)@.input.submits(keysym, state),
            submit matches Some(credentials) ==> credentials.username@ == old(self)@.input.username
                && credentials.password@ == old(self)@.input.buffer,
            final(self)@ == old(self)@.after(
                (SessionEvent::Key {
                    keysym,
                    state,
                    text: match text {
                        Some(text) => Some(text@),
                        None => None,
                    },
                }),
            ),
    {
        let submit = self.input.key(keysym, state, text);
        assert(final(self)@.outputs =~= old(self)@.outputs);
        submit
    }

    /// Takes the verdict of the authentication service, see
    /// [`Input::verdict`]. No output changes.
    pub fn verdict(&mut self, accepted: bool)
        requires
            old(self)@.input.submitting && !accepted ==> old(self)@.input.failed < u32::MAX,
        ensures
            old(self)@.wf() ==> final(self)@.wf(),
            final(self)@ == (SessionView {
                input: old(self)@.input.after_verdict(accepted),
                ..old(self)@
            }),
            final(self)@ == old(self)@.after((SessionEvent::Verdict { accepted })),
    {
        self.input.verdict(accepted);
        assert(final(self)@.outputs =~= old(self)@.outputs);
    }

    /// Whether the turn can be ended: a feedback colour that is due can only
    /// fill the windows if every output reports a resolution that a buffer
    /// can be allocated for.
    pub fn can_settle(&self) -> (ok: bool)
        ensures
            ok == self@.can_settle(),
    {
        if self.input.is_logged_in() || self.input.pending_color().is_none() {
            return true;
        }
        let mut i: usize = 0;
        while i < self.outputs.len()
            invariant
                i <= self.outputs@.len(),
                !self@.input.logged_in,
                self@.input.new_color is Some,
                forall|j: int|
                    0 <= j < i ==> (#[trigger] self@.outputs[j]).resolution.allocatable(),
            decreases self.outputs@.len() - i,
        {
            if !self.outputs[i].resolution.can_allocate() {
                assert(!self@.outputs[i as int].resolution.allocatable());
                return false;
            }
            i += 1;
        }
        true
    }

    /// Ends a turn of the dispatch loop. Once the user is logged in, one
    /// unlock request is due for every output, and all locks are given up
    /// together. Until then the outputs stay locked, and a pending feedback
    /// colour fills the window of every output.
    pub fn settle(&mut self) -> (outcome: Outcome)
        requires
            old(self)@.wf(),
            old(self)@.can_settle(),
        ensures
            final(self)@.wf(),
            outcome == old(self)@.outcome(),
            final(self)@ == old(self)@.settled(),
            final(self)@ == old(self)@.after(SessionEvent::Settle),
    {
        if self.input.is_logged_in() {
            let requests = self.outputs.len();
            self.outputs.clear();
            assert(final(self)@.outputs =~= Seq::empty());
            return Outcome::Unlocked { requests };
        }
        let color = self.input.take_pending_color();
        if let Some(color) = color {
            let count = self.outputs.len();
            let mut i: usize = 0;
            assert forall|j: int| 0 <= j < count implies (#[trigger] self.outputs@[j])@.wf() by {
                assert(old(self)@.outputs[j].wf());
            }
            while i < count
                invariant
                    count == self.outputs@.len(),
                    count == old(self).outputs@.len(),
                    i <= count,
                    old(self)@.allocatable(),
                    self.input@ == (InputView { new_color: None, ..old(self).input@ }),
                    forall|j: int| 0 <= j < count ==> (#[trigger] self.outputs@[j])@.wf(),
                    forall|j: int|
                        0 <= j < i ==> (#[trigger] self.outputs@[j])@ == old(
                            self,
                        ).outputs@[j]@.colored(color),
                    forall|j: int|
                        i <= j < count ==> (#[trigger] self.outputs@[j])@ == old(self).outputs@[j]@,
                decreases count - i,
            {
                assert(old(self)@.outputs[i as int].resolution.allocatable());
                let output = &mut self.outputs[i];
                output.window.update_color(color, output.resolution);
                i += 1;
            }
            assert(final(self)@.outputs =~= old(self)@.settled().outputs);
        } else {
            assert(final(self)@.outputs =~= old(self)@.outputs);
        }
        Outcome::Locked
    }
}

} // verus!
