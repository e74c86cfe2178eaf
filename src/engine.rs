//! The decisions of the frame loop: what each event of the window host
//! asks for, and how the per-frame state moves from tick to tick.
use crate::input::{tick_map, Input, KeyCode, RELEASED};
use vstd::prelude::*;

verus! {

/// An event of the window host, reduced to what the engine reacts to.
#[derive(Clone, Copy, Debug, PartialEq, Eq, Structural)]
pub enum HostEvent {
    /// All pending events of the current tick were delivered.
    EventsCleared,
    /// The window asks to be drawn.
    RedrawRequested,
    /// The user asked to close the window.
    CloseRequested,
    /// A key went down (`pressed`) or up.
    Key { code: KeyCode, pressed: bool },
    /// Anything else.
    Other,
}

/// What the host loop must do in answer to an event.
#[derive(Clone, Copy, Debug, PartialEq, Eq, Structural)]
pub enum Reaction {
    /// Let the application update, call [`FrameState::end_tick`], and ask
    /// for a redraw.
    Update,
    /// Let the application render a frame.
    Render,
    /// Leave the loop.
    Exit,
    /// Nothing to do.
    Ignore,
}

/// The state the engine keeps across ticks.
pub struct FrameState {
    /// The keyboard as of the current tick.
    pub input: Input,
    /// Ticks completed so far.
    pub frame_count: u64,
}

impl FrameState {
    /// The state before the first tick.
    pub fn new() -> (r: FrameState)
        ensures
            r.input@ == Map::<KeyCode, u32>::empty(),
            r.frame_count == 0,
    {
        FrameState { input: Input::new(), frame_count: 0 }
    }

    /// Takes in one event: a key event updates the keyboard, every event
    /// says what the host must do.
    pub fn handle(&mut self, event: HostEvent) -> (r: Reaction)
        ensures
            final(self).frame_count == old(self).frame_count,
            match event {
                HostEvent::Key { code, pressed } => {
                    &&& r == Reaction::Ignore
                    &&& final(self).input@ == old(self).input@.insert(
                        code,
                        if pressed {
                            0
                        } else {
                            RELEASED
                        },
                    )
                },
                HostEvent::EventsCleared => r == Reaction::Update && final(self).input@
                    == old(self).input@,
                HostEvent::RedrawRequested => r == Reaction::Render && final(self).input@
                    == old(self).input@,
                HostEvent::CloseRequested => r == Reaction::Exit && final(self).input@
                    == old(self).input@,
                HostEvent::Other => r == Reaction::Ignore && final(self).input@ == old(self).input@,
            },
    {
        match event {
            HostEvent::EventsCleared => Reaction::Update,
            HostEvent::RedrawRequested => Reaction::Render,
            HostEvent::CloseRequested => Reaction::Exit,
            HostEvent::Key { code, pressed } => {
                if pressed {
                    self.input.press(code);
                } else {
                    self.input.release(code);
                }
                Reaction::Ignore
            },
            HostEvent::Other => Reaction::Ignore,
        }
    }

    /// Closes the current tick, once the application has updated: the
    /// keyboard ages by one tick and the frame count grows by one.
    pub fn end_tick(&mut self)
        requires
            old(self).frame_count < u64::MAX,
        ensures
            final(self).input@ == tick_map(old(self).input@),
            final(self).frame_count == old(self).frame_count + 1,
    {
        self.input.next_tick();
        self.frame_count = self.frame_count + 1;
    }
}

} // verus!
