//! What the window tells the game, picked out of what the host's event
//! loop reports.

use vstd::prelude::*;
use crate::input::{ElementState, KeyCode, PhysicalKey};

verus! {

/// What the window tells the game.
#[derive(Clone, Copy, Debug, PartialEq, Eq, Structural)]
pub enum WindowEvent {
    Resized { width: u32, height: u32 },
    Keyboard { state: ElementState, keycode: PhysicalKey },
    Draw,
    LostFocus,
    Closed,
}

/// What the host reports of one window.
#[derive(Clone, Copy, Debug, PartialEq, Eq, Structural)]
pub enum HostWindowEvent {
    CloseRequested,
    KeyboardInput { state: ElementState, physical_key: PhysicalKey },
    Resized { width: u32, height: u32 },
    Focused(bool),
    /// Anything else that happened to the window.
    Other,
}

/// What the host's event loop reports.
#[derive(Clone, Copy, Debug, PartialEq, Eq, Structural)]
pub enum HostEvent {
    /// Something happened to a window, which is this one where `own`.
    Window { own: bool, event: HostWindowEvent },
    /// Every event has been handed out and the loop is about to wait.
    AboutToWait,
    LoopExiting,
    /// Anything else.
    Other,
}

/// What is made of one report of the host.
#[derive(Clone, Copy, Debug, PartialEq, Eq, Structural)]
pub enum Reaction {
    /// The event loop is told to end.
    Exit,
    /// The game is told of the event.
    Report(WindowEvent),
    /// Nothing happens.
    Ignore,
}

/// The window of the game, as far as its events go: the key that closes it.
#[derive(Clone, Copy, Debug)]
pub struct Window {
    exit_key: KeyCode,
}

impl Window {
    pub closed spec fn spec_exit_key(&self) -> KeyCode {
        self.exit_key
    }

    /// What a window whose exit key is `exit_key` makes of `event`.
    ///
    /// A request to close the window and the exit key going down end the
    /// loop. A new size, any other key and the loss of focus are reported,
    /// each only of the window itself. The loop's going to wait is the
    /// moment to draw.
    pub open spec fn reaction(exit_key: KeyCode, event: HostEvent) -> Reaction {
        match event {
            HostEvent::Window { own: true, event } => match event {
                HostWindowEvent::CloseRequested => Reaction::Exit,
                HostWindowEvent::KeyboardInput { state, physical_key } => if state
                    == ElementState::Pressed && physical_key == PhysicalKey::Code(exit_key) {
                    Reaction::Exit
                } else {
                    Reaction::Report(WindowEvent::Keyboard { state, keycode: physical_key })
                },
                HostWindowEvent::Resized { width, height } => Reaction::Report(
                    WindowEvent::Resized { width, height },
                ),
                HostWindowEvent::Focused(false) => Reaction::Report(WindowEvent::LostFocus),
                _ => Reaction::Ignore,
            },
            HostEvent::AboutToWait => Reaction::Report(WindowEvent::Draw),
            HostEvent::LoopExiting => Reaction::Report(WindowEvent::Closed),
            _ => Reaction::Ignore,
        }
    }

    pub fn new(exit_key: KeyCode) -> (window: Window)
        ensures
            window.spec_exit_key() == exit_key,
    {
        Window { exit_key }
    }

    #[verifier::when_used_as_spec(spec_exit_key)]
    pub fn exit_key(&self) -> (key: KeyCode)
        ensures
            key == self.spec_exit_key(),
    {
        self.exit_key
    }

    /// What the window makes of one report of the host.
    pub fn on_event(&self, event: HostEvent) -> (reaction: Reaction)
        ensures
            reaction == Self::reaction(self.spec_exit_key(), event),
    {
        match event {
            HostEvent::Window { own, event } => {
                if !own {
                    return Reaction::Ignore;
                }
                match event {
                    HostWindowEvent::CloseRequested => Reaction::Exit,
                    HostWindowEvent::KeyboardInput { state, physical_key } => {
                        let exits = match (state, physical_key) {
                            (ElementState::Pressed, PhysicalKey::Code(key)) => key.0
                                == self.exit_key.0,
                            _ => false,
                        };
                        if exits {
                            Reaction::Exit
                        } else {
                            Reaction::Report(WindowEvent::Keyboard { state, keycode: physical_key })
                        }
                    },
                    HostWindowEvent::Resized { width, height } => Reaction::Report(
                        WindowEvent::Resized { width, height },
                    ),
                    HostWindowEvent::Focused(focused) => if focused {
                        Reaction::Ignore
                    } else {
                        Reaction::Report(WindowEvent::LostFocus)
                    },
                    HostWindowEvent::Other => Reaction::Ignore,
                }
            },
            HostEvent::AboutToWait => Reaction::Report(WindowEvent::Draw),
            HostEvent::LoopExiting => Reaction::Report(WindowEvent::Closed),
            HostEvent::Other => Reaction::Ignore,
        }
    }
}

} // verus!
