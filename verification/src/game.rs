//! The game's side of the window: what each event does to the renderer and
//! to the keys, and where the keys send the player.

use vstd::prelude::*;
use crate::camera::letterbox_of;
use crate::input::{
    after_input, after_reset, any_pressed, is_bound, Binding, Control, InputHandler, KeyCode,
    KeyState,
};
use crate::renderer::RendererState;
use crate::window::WindowEvent;

verus! {

/// What is left to do once an event has been taken in.
#[derive(Clone, Copy, Debug, PartialEq, Eq, Structural)]
pub enum Step {
    /// Nothing until the next event.
    Wait,
    /// The world moves on by one tick and a frame is rendered.
    Frame,
}

/// The keys that move the player.
#[derive(Clone, Copy, Debug)]
pub struct MoveKeys {
    pub up: KeyCode,
    pub left: KeyCode,
    pub down: KeyCode,
    pub right: KeyCode,
}

/// The renderer and the keys of one game.
pub struct Game<S> {
    pub renderer: RendererState<S>,
    pub input_handler: InputHandler,
}

/// One pace along an axis for a control that is on, none for one that is
/// off.
pub open spec fn pace(on: bool) -> int {
    if on {
        1
    } else {
        0
    }
}

/// Where the controls that are on send the player: one pace for each, up
/// and right counted forwards, down and left backwards.
pub open spec fn heading_of(bindings: Seq<Binding>) -> (int, int) {
    (
        pace(any_pressed(bindings, Control::MoveRight)) - pace(
            any_pressed(bindings, Control::MoveLeft),
        ),
        pace(any_pressed(bindings, Control::MoveUp)) - pace(
            any_pressed(bindings, Control::MoveDown),
        ),
    )
}

impl<S: Copy> Game<S> {
    /// A game that draws with `renderer` and moves the player with `keys`:
    /// up, left, down and right are bound in that order, and nothing has
    /// happened to any key yet.
    pub fn new(renderer: RendererState<S>, keys: MoveKeys) -> (game: Self)
        ensures
            game.input_handler.wf(),
            game.renderer == renderer,
            game.input_handler@ == seq![
                Binding { key: keys.up, control: Control::MoveUp, state: KeyState::Inactive },
                Binding { key: keys.left, control: Control::MoveLeft, state: KeyState::Inactive },
                Binding { key: keys.down, control: Control::MoveDown, state: KeyState::Inactive },
                Binding { key: keys.right, control: Control::MoveRight, state: KeyState::Inactive },
            ],
    {
        let mut input_handler = InputHandler::new();
        input_handler.register_control(keys.up, Control::MoveUp);
        let ghost one = input_handler@;
        input_handler.register_control(keys.left, Control::MoveLeft);
        let ghost two = input_handler@;
        assert(!is_bound(one, keys.left, Control::MoveLeft));
        input_handler.register_control(keys.down, Control::MoveDown);
        let ghost three = input_handler@;
        assert(!is_bound(two, keys.down, Control::MoveDown));
        input_handler.register_control(keys.right, Control::MoveRight);
        assert(!is_bound(three, keys.right, Control::MoveRight));
        assert(input_handler@ =~= seq![
            Binding { key: keys.up, control: Control::MoveUp, state: KeyState::Inactive },
            Binding { key: keys.left, control: Control::MoveLeft, state: KeyState::Inactive },
            Binding { key: keys.down, control: Control::MoveDown, state: KeyState::Inactive },
            Binding { key: keys.right, control: Control::MoveRight, state: KeyState::Inactive },
        ]);
        Game { renderer, input_handler }
    }

    /// Takes in one event of the window. A new size goes to the renderer
    /// and a key to the bindings; the loss of focus lets go of every key;
    /// the moment to draw asks for a frame.
    pub fn on_event(&mut self, event: WindowEvent) -> (step: Step)
        requires
            old(self).input_handler.wf(),
        ensures
            final(self).input_handler.wf(),
            step == if event == WindowEvent::Draw {
                Step::Frame
            } else {
                Step::Wait
            },
            final(self).renderer.sprites() == old(self).renderer.sprites(),
            final(self).renderer.lights() == old(self).renderer.lights(),
            final(self).renderer.sheet() == old(self).renderer.sheet(),
            match event {
                WindowEvent::Resized { width, height } => {
                    &&& final(self).input_handler@ == old(self).input_handler@
                    &&& final(self).renderer.viewport() == if width > 0 && height > 0 {
                        letterbox_of(width, height)
                    } else {
                        old(self).renderer.viewport()
                    }
                },
                WindowEvent::Keyboard { state, keycode } => {
                    &&& final(self).renderer.viewport() == old(self).renderer.viewport()
                    &&& final(self).input_handler@ == after_input(
                        old(self).input_handler@,
                        keycode,
                        state,
                    )
                },
                WindowEvent::LostFocus => {
                    &&& final(self).renderer.viewport() == old(self).renderer.viewport()
                    &&& final(self).input_handler@ == after_reset(old(self).input_handler@)
                },
                _ => {
                    &&& final(self).input_handler@ == old(self).input_handler@
                    &&& final(self).renderer.viewport() == old(self).renderer.viewport()
                },
            },
    {
        match event {
            WindowEvent::Resized { width, height } => {
                self.renderer.resize(width, height);
                Step::Wait
            },
            WindowEvent::Keyboard { state, keycode } => {
                self.input_handler.handle_input(keycode, state);
                Step::Wait
            },
            WindowEvent::Draw => Step::Frame,
            WindowEvent::LostFocus => {
                self.input_handler.reset_states();
                Step::Wait
            },
            WindowEvent::Closed => Step::Wait,
        }
    }

    /// Where the keys that are down send the player.
    pub fn heading(&self) -> (heading: (i8, i8))
        requires
            self.input_handler.wf(),
        ensures
            (heading.0 as int, heading.1 as int) == heading_of(self.input_handler@),
    {
        let mut x: i8 = 0;
        let mut y: i8 = 0;
        if self.input_handler.is_pressed(Control::MoveUp) {
            y = y + 1;
        }
        if self.input_handler.is_pressed(Control::MoveDown) {
            y = y - 1;
        }
        if self.input_handler.is_pressed(Control::MoveLeft) {
            x = x - 1;
        }
        if self.input_handler.is_pressed(Control::MoveRight) {
            x = x + 1;
        }
        (x, y)
    }
}

} // verus!
